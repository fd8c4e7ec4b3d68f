//! The text of the output file: one combination per line.

use vstd::prelude::*;
use vstd::string::StringExecFns;
use crate::casing::push_char;
use crate::casing::variant;
use crate::casing::variant_char;
use crate::generate::is_variant_table;

verus! {

/// The text of one line: the combination, then a line feed.
pub open spec fn line_text(line: Seq<char>) -> Seq<char> {
    line.push('\n')
}

/// The text of a file that holds `lines`, each as a line of its own.
pub open spec fn file_text(lines: Seq<Seq<char>>) -> Seq<char>
    decreases lines.len(),
{
    if lines.len() == 0 {
        Seq::empty()
    } else {
        line_text(lines.first()) + file_text(lines.drop_first())
    }
}

/// The position of the first line feed in `text`, or the length of `text`
/// where it holds none.
pub open spec fn first_break(text: Seq<char>) -> nat
    decreases text.len(),
{
    if text.len() == 0 || text[0] == '\n' {
        0
    } else {
        1 + first_break(text.drop_first())
    }
}

/// A line as a reader hands it out: without the carriage return that may
/// stand before the line feed.
pub open spec fn without_return(line: Seq<char>) -> Seq<char> {
    if line.len() > 0 && line.last() == '\r' {
        line.drop_last()
    } else {
        line
    }
}

/// The lines that reading `text` line by line yields: the text is cut at
/// each line feed, a carriage return just before a line feed goes with it,
/// and what follows the last line feed is a line if it is not empty.
pub open spec fn lines_of(text: Seq<char>) -> Seq<Seq<char>>
    decreases text.len(),
{
    let k = first_break(text) as int;
    if text.len() == 0 {
        Seq::empty()
    } else if k < text.len() {
        seq![without_return(text.subrange(0, k))] + lines_of(
            text.subrange(k + 1, text.len() as int),
        )
    } else {
        seq![text]
    }
}

/// Whether `line` comes back unchanged from a file: it holds no line feed
/// and does not end in a carriage return.
pub open spec fn survives_reading(line: Seq<char>) -> bool {
    &&& forall|j: int| 0 <= j < line.len() ==> line[j] != '\n'
    &&& without_return(line) == line
}

/// The text of the line that holds `combination`.
pub fn render_line(combination: &str) -> (text: String)
    ensures
        text@ == line_text(combination@),
{
    let mut text = String::from_str(combination);
    push_char(&mut text, '\n');
    text
}

/// The first line feed of a line's text followed by anything is the one
/// that ends the line, if the line itself holds none.
pub proof fn lemma_first_break(line: Seq<char>, tail: Seq<char>)
    requires
        forall|j: int| 0 <= j < line.len() ==> line[j] != '\n',
    ensures
        first_break(line_text(line) + tail) == line.len(),
    decreases line.len(),
{
    let text = line_text(line) + tail;
    if line.len() > 0 {
        assert(text[0] == line[0]);
        assert(text.drop_first() =~= line_text(line.drop_first()) + tail);
        lemma_first_break(line.drop_first(), tail);
    } else {
        assert(text[0] == '\n');
    }
}

/// Adding a line to the lines adds its text to the end of the file.
pub proof fn lemma_file_text_push(lines: Seq<Seq<char>>, line: Seq<char>)
    ensures
        file_text(lines.push(line)) == file_text(lines) + line_text(line),
    decreases lines.len(),
{
    let more = lines.push(line);
    if lines.len() == 0 {
        assert(more.drop_first() =~= Seq::<Seq<char>>::empty());
        assert(file_text(more.drop_first()) =~= Seq::<char>::empty());
        assert(file_text(more) =~= file_text(lines) + line_text(line));
    } else {
        assert(more.first() == lines.first());
        assert(more.drop_first() =~= lines.drop_first().push(line));
        lemma_file_text_push(lines.drop_first(), line);
        assert(file_text(more) =~= file_text(lines) + line_text(line));
    }
}

/// Reading a written file line by line yields the lines that were written,
/// in their order, provided that each of them survives reading.
pub proof fn lemma_round_trip(lines: Seq<Seq<char>>)
    requires
        forall|i: int| 0 <= i < lines.len() ==> survives_reading(#[trigger] lines[i]),
    ensures
        lines_of(file_text(lines)) == lines,
    decreases lines.len(),
{
    if lines.len() > 0 {
        let head = lines.first();
        let rest = lines.drop_first();
        let text = file_text(lines);
        assert(survives_reading(lines[0]));
        lemma_first_break(head, file_text(rest));
        let k = head.len() as int;
        assert(text.subrange(0, k) =~= head);
        assert(text.subrange(k + 1, text.len() as int) =~= file_text(rest));
        assert forall|i: int| 0 <= i < rest.len() implies survives_reading(#[trigger] rest[i]) by {
            assert(rest[i] == lines[i + 1]);
        }
        lemma_round_trip(rest);
        assert(seq![head] + rest =~= lines);
    }
}

/// Every variant of an input that survives reading survives it too:
/// changing the case of letters neither makes nor moves a line feed or a
/// carriage return.
pub proof fn lemma_variant_survives(input: Seq<char>, index: nat)
    requires
        survives_reading(input),
    ensures
        survives_reading(variant(input, index)),
{
    let v = variant(input, index);
    assert forall|j: int| 0 <= j < v.len() implies v[j] != '\n' by {
        assert(v[j] == variant_char(input, index, j));
        assert(input[j] != '\n');
    }
    if v.len() > 0 {
        let last = v.len() - 1;
        assert(v[last] == variant_char(input, index, last));
        assert(input.last() != '\r');
    }
}

/// Writing the next line extends the file by that line's text: with
/// `written` lines out, the file holds the text of the first `written`
/// lines, and the line at position `written` comes to stand at its end.
pub proof fn lemma_next_line_extends(lines: Seq<Seq<char>>, written: int)
    requires
        0 <= written < lines.len(),
    ensures
        file_text(lines.take(written + 1)) == file_text(lines.take(written)) + line_text(
            lines[written],
        ),
        file_text(lines.take(lines.len() as int)) == file_text(lines),
{
    assert(lines.take(written + 1) =~= lines.take(written).push(lines[written]));
    lemma_file_text_push(lines.take(written), lines[written]);
    assert(lines.take(lines.len() as int) =~= lines);
}

/// The file of a table of variants reads back as the table, provided that
/// the input survives reading.
pub proof fn lemma_table_round_trip(results: Seq<String>, input: Seq<char>, total: nat)
    requires
        is_variant_table(results, input, total),
        survives_reading(input),
    ensures
        lines_of(file_text(results.map_values(|s: String| s@))) == results.map_values(
            |s: String| s@,
        ),
{
    let lines = results.map_values(|s: String| s@);
    assert forall|i: int| 0 <= i < lines.len() implies survives_reading(#[trigger] lines[i]) by {
        assert(lines[i] == results[i]@);
        lemma_variant_survives(input, i as nat);
    }
    lemma_round_trip(lines);
}

} // verus!
