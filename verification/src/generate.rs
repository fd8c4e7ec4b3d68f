//! The generator: all variants of an input, in index order, computed in
//! parallel.

use std::sync::atomic::AtomicUsize;
use std::sync::Arc;
use rayon::iter::IndexedParallelIterator;
use rayon::iter::IntoParallelIterator;
use rayon::iter::ParallelIterator;
use vstd::prelude::*;
use vstd::arithmetic::power2::pow2;
use crate::casing::combination;
use crate::casing::is_letter;
use crate::casing::lemma_case_insensitive;
use crate::casing::lemma_variants_distinct;
use crate::casing::to_lower;
use crate::casing::variant;
use crate::progress::report_unit;

verus! {

/// The largest number of variants that is generated. A table of this many
/// strings stays within the size that a single buffer may have.
pub const MAX_COMBINATIONS: usize = usize::MAX / 64;

/// Whether `results` holds, in index order, the first `total` variants of
/// `input`.
pub open spec fn is_variant_table(results: Seq<String>, input: Seq<char>, total: nat) -> bool {
    &&& results.len() == total
    &&& forall|i: int| 0 <= i < total ==> (#[trigger] results[i])@ == variant(input, i as nat)
}

/// The number of variants of a string of `length` characters, `2^length`,
/// or `None` where that exceeds [`MAX_COMBINATIONS`].
pub fn total_combinations(length: usize) -> (total: Option<usize>)
    ensures
        pow2(length as nat) <= MAX_COMBINATIONS ==> total == Some(pow2(length as nat) as usize),
        pow2(length as nat) > MAX_COMBINATIONS ==> total.is_none(),
{
    let mut total: usize = 1;
    let mut k: usize = 0;
    proof {
        vstd::arithmetic::power2::lemma2_to64();
    }
    while k < length
        invariant
            k <= length,
            total == pow2(k as nat),
            total <= MAX_COMBINATIONS,
        decreases length - k,
    {
        proof {
            vstd::arithmetic::power2::lemma_pow2_unfold((k + 1) as nat);
        }
        if total > MAX_COMBINATIONS / 2 {
            proof {
                if k + 1 < length {
                    vstd::arithmetic::power2::lemma_pow2_strictly_increases(
                        (k + 1) as nat,
                        length as nat,
                    );
                }
            }
            return None;
        }
        total = total * 2;
        k += 1;
    }
    Some(total)
}

/// One unit of generation: builds the variant at `index` and reports it on
/// `counter`.
pub fn produce(input: &str, index: usize, counter: &Arc<AtomicUsize>) -> (s: String)
    ensures
        s@ == variant(input@, index as nat),
{
    let s = combination(input, index);
    report_unit(counter);
    s
}

/// rayon's `into_par_iter` on `0..total`, `map` and `collect_into_vec`: the
/// closure runs once for each index of the range, on rayon's worker threads
/// and in no fixed order; the vector is cleared and then receives the
/// closure's result for index `i` at position `i`. The closure is one call
/// of [`produce`], whose verified contract gives each element. The bound on
/// `total` keeps the space that rayon reserves within what a vector may
/// hold.
#[verifier::external_body]
fn collect_variants(
    input: &str,
    total: usize,
    counter: &Arc<AtomicUsize>,
    results: &mut Vec<String>,
)
    requires
        total <= MAX_COMBINATIONS,
    ensures
        is_variant_table(final(results)@, input@, total as nat),
{
    (0..total).into_par_iter().map(|i| produce(input, i, counter)).collect_into_vec(results);
}

/// Generates the variants of `input` at the indices below
/// `total_combinations`: position `i` of the result holds the variant that
/// index `i` selects. With `total_combinations` at `2^L` for an input of `L`
/// characters, as [`total_combinations`] gives it, these are all of them.
/// The work is shared among rayon's worker threads; each variant produced
/// is reported once on `counter`.
pub fn generate_combinations(
    input: &str,
    total_combinations: usize,
    counter: Arc<AtomicUsize>,
) -> (results: Vec<String>)
    requires
        total_combinations <= MAX_COMBINATIONS,
    ensures
        is_variant_table(results@, input@, total_combinations as nat),
{
    let mut results: Vec<String> = Vec::with_capacity(total_combinations);
    collect_variants(input, total_combinations, &counter, &mut results);
    results
}

/// The full table of an input of `L` ASCII letters holds `2^L` strings of
/// `L` characters each, no two of them equal.
pub proof fn lemma_table_distinct(results: Seq<String>, input: Seq<char>)
    requires
        is_variant_table(results, input, pow2(input.len())),
        forall|j: int| 0 <= j < input.len() ==> is_letter(#[trigger] input[j]),
    ensures
        results.len() == pow2(input.len()),
        forall|i: int| 0 <= i < results.len() ==> (#[trigger] results[i])@.len() == input.len(),
        forall|i: int, k: int|
            0 <= i < results.len() && 0 <= k < results.len() && i != k ==> (#[trigger] results[i])@
                != (#[trigger] results[k])@,
{
    assert forall|i: int, k: int|
        0 <= i < results.len() && 0 <= k < results.len() && i != k implies (#[trigger] results[i])@
        != (#[trigger] results[k])@ by {
        lemma_variants_distinct(input, i as nat, k as nat);
    }
}

/// The tables of two inputs that agree up to the case of their ASCII
/// letters hold the same strings at the same positions.
pub proof fn lemma_table_case_insensitive(
    first: Seq<String>,
    second: Seq<String>,
    a: Seq<char>,
    b: Seq<char>,
    total: nat,
)
    requires
        is_variant_table(first, a, total),
        is_variant_table(second, b, total),
        a.len() == b.len(),
        forall|j: int| 0 <= j < a.len() ==> to_lower(#[trigger] a[j]) == to_lower(b[j]),
    ensures
        forall|i: int| 0 <= i < total ==> (#[trigger] first[i])@ == second[i]@,
{
    assert forall|i: int| 0 <= i < total implies (#[trigger] first[i])@ == second[i]@ by {
        lemma_case_insensitive(a, b, i as nat);
    }
}

} // verus!
