//! The casing variants of a string, addressed by a bitmask index.
//!
//! Bit `j` of an index decides the case of character `j`: set means upper
//! case, clear means lower case. Only ASCII letters have two cases; every
//! other character is left as it is, yet still owns its bit.

use vstd::prelude::*;
use vstd::arithmetic::power2::pow2;
use vstd::string::StrSliceExecFns;

verus! {

/// Whether `c` is one of `A` to `Z`.
pub open spec fn is_upper(c: char) -> bool {
    'A' <= c && c <= 'Z'
}

/// Whether `c` is one of `a` to `z`.
pub open spec fn is_lower(c: char) -> bool {
    'a' <= c && c <= 'z'
}

/// Whether `c` is an ASCII letter.
pub open spec fn is_letter(c: char) -> bool {
    is_upper(c) || is_lower(c)
}

/// The lower-case form of `c`: an ASCII capital moves to its small letter,
/// anything else stays.
pub open spec fn to_lower(c: char) -> char {
    if is_upper(c) {
        (c as u32 + 32) as char
    } else {
        c
    }
}

/// The upper-case form of `c`: an ASCII small letter moves to its capital,
/// anything else stays.
pub open spec fn to_upper(c: char) -> char {
    if is_lower(c) {
        (c as u32 - 32) as char
    } else {
        c
    }
}

/// Whether bit `j` of `index` is set.
pub open spec fn bit_set(index: nat, j: nat) -> bool {
    (index / pow2(j)) % 2 == 1
}

/// Character `j` of the variant of `input` that `index` selects.
pub open spec fn variant_char(input: Seq<char>, index: nat, j: int) -> char {
    if bit_set(index, j as nat) {
        to_upper(input[j])
    } else {
        to_lower(input[j])
    }
}

/// The variant of `input` that `index` selects.
pub open spec fn variant(input: Seq<char>, index: nat) -> Seq<char> {
    Seq::new(input.len(), |j: int| variant_char(input, index, j))
}

/// `char::to_ascii_lowercase` of std: `A`..=`Z` map to `a`..=`z`, every
/// other character is returned unchanged.
pub assume_specification[ char::to_ascii_lowercase ](c: &char) -> (r: char)
    ensures
        r == to_lower(*c),
;

/// `char::to_ascii_uppercase` of std: `a`..=`z` map to `A`..=`Z`, every
/// other character is returned unchanged.
pub assume_specification[ char::to_ascii_uppercase ](c: &char) -> (r: char)
    ensures
        r == to_upper(*c),
;

/// `String::push` of std: the string grows by the one character, at its end.
#[verifier::external_body]
pub(crate) fn push_char(s: &mut String, c: char)
    ensures
        final(s)@ == old(s)@.push(c),
{
    s.push(c)
}

/// Halving an index shifts its bits down by one place.
proof fn lemma_shift(index: nat, j: nat)
    ensures
        (index / pow2(j)) / 2 == index / pow2(j + 1),
{
    vstd::arithmetic::power2::lemma_pow2_pos(j);
    vstd::arithmetic::power2::lemma_pow2_unfold(j + 1);
    vstd::arithmetic::div_mod::lemma_div_denominator(index as int, pow2(j) as int, 2);
    assert(pow2(j) * 2 == 2 * pow2(j)) by (nonlinear_arith);
}

/// Every variant is as long as its input.
pub proof fn lemma_variant_len(input: Seq<char>, index: nat)
    ensures
        variant(input, index).len() == input.len(),
{
}

/// Two indices below `2^n` that agree on their `n` low bits are equal.
pub proof fn lemma_bits_determine(a: nat, b: nat, n: nat)
    requires
        a < pow2(n),
        b < pow2(n),
        forall|j: nat| j < n ==> bit_set(a, j) == bit_set(b, j),
    ensures
        a == b,
    decreases n,
{
    vstd::arithmetic::power2::lemma2_to64();
    if n > 0 {
        let m: nat = (n - 1) as nat;
        vstd::arithmetic::power2::lemma_pow2_unfold(n);
        let ha: nat = a / 2;
        let hb: nat = b / 2;
        assert forall|j: nat| j < m implies bit_set(ha, j) == bit_set(hb, j) by {
            vstd::arithmetic::power2::lemma_pow2_pos(j);
            vstd::arithmetic::power2::lemma_pow2_unfold(j + 1);
            vstd::arithmetic::div_mod::lemma_div_denominator(a as int, 2, pow2(j) as int);
            vstd::arithmetic::div_mod::lemma_div_denominator(b as int, 2, pow2(j) as int);
            assert(bit_set(a, j + 1) == bit_set(b, j + 1));
        }
        lemma_bits_determine(ha, hb, m);
        assert(bit_set(a, 0) == bit_set(b, 0));
    }
}

/// Distinct indices below `2^L` select distinct variants of an input of `L`
/// ASCII letters: the variants of such an input are `2^L` different strings.
pub proof fn lemma_variants_distinct(input: Seq<char>, a: nat, b: nat)
    requires
        forall|j: int| 0 <= j < input.len() ==> is_letter(#[trigger] input[j]),
        a < pow2(input.len()),
        b < pow2(input.len()),
        a != b,
    ensures
        variant(input, a) != variant(input, b),
{
    if variant(input, a) == variant(input, b) {
        assert forall|j: nat| j < input.len() implies bit_set(a, j) == bit_set(b, j) by {
            let k: int = j as int;
            assert(is_letter(input[k]));
            assert(variant(input, a)[k] == variant_char(input, a, k));
            assert(variant(input, b)[k] == variant_char(input, b, k));
            assert(to_upper(input[k]) != to_lower(input[k]));
        }
        lemma_bits_determine(a, b, input.len());
    }
}

/// The case in which the input is written does not matter: two inputs that
/// agree up to the case of their ASCII letters have the same variant at
/// every index.
pub proof fn lemma_case_insensitive(a: Seq<char>, b: Seq<char>, index: nat)
    requires
        a.len() == b.len(),
        forall|j: int| 0 <= j < a.len() ==> to_lower(#[trigger] a[j]) == to_lower(b[j]),
    ensures
        variant(a, index) == variant(b, index),
{
    assert forall|j: int| 0 <= j < a.len() implies variant_char(a, index, j) == variant_char(
        b,
        index,
        j,
    ) by {
        assert(to_lower(a[j]) == to_lower(b[j]));
        assert(to_upper(a[j]) == to_upper(b[j]));
    }
    assert(variant(a, index) =~= variant(b, index));
}

/// A variant is itself an input of the same family: its own variants are
/// those of the string it was made from.
pub proof fn lemma_variant_of_variant(input: Seq<char>, first: nat, index: nat)
    ensures
        variant(variant(input, first), index) == variant(input, index),
{
    let recased = variant(input, first);
    assert forall|j: int| 0 <= j < recased.len() implies to_lower(#[trigger] recased[j])
        == to_lower(input[j]) by {
        assert(recased[j] == variant_char(input, first, j));
    }
    lemma_case_insensitive(recased, input, index);
}

/// Index 0 selects the all-lower-case variant.
pub proof fn lemma_variant_zero(input: Seq<char>)
    ensures
        variant(input, 0) == Seq::new(input.len(), |j: int| to_lower(input[j])),
{
    assert forall|j: nat| !bit_set(0, j) by {
        vstd::arithmetic::power2::lemma_pow2_pos(j);
    }
    assert(variant(input, 0) =~= Seq::new(input.len(), |j: int| to_lower(input[j])));
}

/// The empty input has one variant, the empty string, at every index.
pub proof fn lemma_empty_input(index: nat)
    ensures
        variant(Seq::<char>::empty(), index) == Seq::<char>::empty(),
{
    assert(variant(Seq::<char>::empty(), index) =~= Seq::<char>::empty());
}

/// An input of one character has its lower-case form at index 0 and its
/// upper-case form at index 1.
pub proof fn lemma_single_character(c: char)
    ensures
        variant(seq![c], 0) == seq![to_lower(c)],
        variant(seq![c], 1) == seq![to_upper(c)],
{
    vstd::arithmetic::power2::lemma2_to64();
    assert(!bit_set(0, 0));
    assert(bit_set(1, 0));
    assert(variant(seq![c], 0) =~= seq![to_lower(c)]);
    assert(variant(seq![c], 1) =~= seq![to_upper(c)]);
}

/// A character that is no ASCII letter appears unchanged in every variant.
pub proof fn lemma_non_letter_kept(input: Seq<char>, index: nat, j: int)
    requires
        0 <= j < input.len(),
        !is_letter(input[j]),
    ensures
        variant(input, index)[j] == input[j],
{
}


/// Builds the variant of `input` that `index` selects.
pub fn combination(input: &str, index: usize) -> (s: String)
    ensures
        s@ == variant(input@, index as nat),
{
    let length: usize = input.unicode_len();
    let mut out = String::new();
    let mut rest: usize = index;
    let mut j: usize = 0;
    proof {
        vstd::arithmetic::power2::lemma2_to64();
    }
    while j < length
        invariant
            j <= length,
            length == input@.len(),
            rest == (index as nat) / pow2(j as nat),
            out@.len() == j,
            forall|k: int| 0 <= k < j ==> out@[k] == variant_char(input@, index as nat, k),
        decreases length - j,
    {
        let c: char = input.get_char(j);
        let cased: char = if rest % 2 == 0 {
            c.to_ascii_lowercase()
        } else {
            c.to_ascii_uppercase()
        };
        push_char(&mut out, cased);
        proof {
            lemma_shift(index as nat, j as nat);
        }
        rest = rest / 2;
        j += 1;
    }
    assert(out@ =~= variant(input@, index as nat));
    out
}

} // verus!
