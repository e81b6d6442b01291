//! Indentation: what the lines of a text have in common at their beginnings,
//! and the text without it.

use vstd::prelude::*;

verus! {

/// The character that parts the lines of a text.
pub open spec fn line_break() -> char {
    '\n'
}

/// Whether `c` is a space or a tab, the characters that indent a line.
pub open spec fn is_blank(c: char) -> bool {
    c == ' ' || c == '\t'
}

/// How many characters stand before the first line break of `text`; all of
/// them, where it holds none.
pub open spec fn first_line_length(text: Seq<char>) -> nat
    decreases text.len(),
{
    if text.len() > 0 && text[0] != line_break() {
        1 + first_line_length(text.drop_first())
    } else {
        0
    }
}

/// The lines of `text`: what stands before, between and after its line
/// breaks. There is always a first line, and a text that ends with a line
/// break has an empty last line.
pub open spec fn lines_of(text: Seq<char>) -> Seq<Seq<char>>
    decreases text.len(),
{
    let n = first_line_length(text) as int;
    if n < text.len() {
        seq![text.take(n)] + lines_of(text.skip(n + 1))
    } else {
        seq![text]
    }
}

/// The lines joined again, with a line break between each two.
pub open spec fn joined(lines: Seq<Seq<char>>) -> Seq<char>
    decreases lines.len(),
{
    if lines.len() == 0 {
        Seq::empty()
    } else if lines.len() == 1 {
        lines[0]
    } else {
        joined(lines.drop_last()) + seq![line_break()] + lines.last()
    }
}

/// How many blanks `line` begins with.
pub open spec fn leading_blanks(line: Seq<char>) -> nat
    decreases line.len(),
{
    if line.len() > 0 && is_blank(line[0]) {
        1 + leading_blanks(line.drop_first())
    } else {
        0
    }
}

/// Whether `line` holds blanks only, or nothing.
pub open spec fn is_blank_line(line: Seq<char>) -> bool {
    leading_blanks(line) == line.len()
}

/// The least number of leading blanks among the lines that hold more than
/// blanks; none where there is no such line.
pub open spec fn least_indent(lines: Seq<Seq<char>>) -> Option<nat>
    decreases lines.len(),
{
    if lines.len() == 0 {
        None
    } else if is_blank_line(lines.last()) {
        least_indent(lines.drop_last())
    } else {
        match least_indent(lines.drop_last()) {
            Some(least) => if leading_blanks(lines.last()) < least {
                Some(leading_blanks(lines.last()))
            } else {
                Some(least)
            },
            None => Some(leading_blanks(lines.last())),
        }
    }
}

/// The indentation that the lines have in common.
pub open spec fn common_indent(lines: Seq<Seq<char>>) -> nat {
    match least_indent(lines) {
        Some(least) => least,
        None => 0,
    }
}

/// `line` without its first `indent` characters; a line that is no longer
/// than that becomes empty.
pub open spec fn outdented(line: Seq<char>, indent: nat) -> Seq<char> {
    if line.len() > indent {
        line.skip(indent as int)
    } else {
        Seq::empty()
    }
}

/// Each of the lines without its first `indent` characters.
pub open spec fn all_outdented(lines: Seq<Seq<char>>, indent: nat) -> Seq<Seq<char>> {
    Seq::new(lines.len(), |i: int| outdented(lines[i], indent))
}

/// A text without the indentation that its lines after the first have in
/// common. The first line stays as it is and does not count; nor does a line
/// that holds blanks only. Every other line loses as many characters at its
/// beginning as the least indented of them has blanks.
pub open spec fn unindented(text: Seq<char>) -> Seq<char> {
    let lines = lines_of(text);
    let others = lines.drop_first();
    joined(seq![lines[0]] + all_outdented(others, common_indent(others)))
}

/// Whether `text` begins with something else than the end of a line: it is
/// empty, or its first character is neither a line break nor a carriage
/// return.
pub open spec fn begins_plainly(text: Seq<char>) -> bool {
    text.len() == 0 || (text[0] != line_break() && text[0] != '\r')
}

/// Whether `line` holds no line break.
pub open spec fn is_one_line(line: Seq<char>) -> bool {
    forall|i: int| 0 <= i < line.len() ==> #[trigger] line[i] != line_break()
}

/// The characters before the first line break hold no line break, and one
/// follows them unless they are all there is.
pub proof fn lemma_first_line_length(text: Seq<char>)
    ensures
        first_line_length(text) <= text.len(),
        forall|i: int| 0 <= i < first_line_length(text) ==> #[trigger] text[i] != line_break(),
        first_line_length(text) < text.len() ==> text[first_line_length(text) as int]
            == line_break(),
    decreases text.len(),
{
    if text.len() > 0 && text[0] != line_break() {
        let rest = text.drop_first();
        lemma_first_line_length(rest);
        assert forall|i: int| 0 <= i < first_line_length(text) implies #[trigger] text[i]
            != line_break() by {
            if i > 0 {
                assert(text[i] == rest[i - 1]);
            }
        }
    }
}

/// A run of characters without a line break that a line break follows, or
/// nothing, is what stands before the first line break.
pub proof fn lemma_first_line_length_is(text: Seq<char>, n: int)
    requires
        0 <= n <= text.len(),
        forall|i: int| 0 <= i < n ==> #[trigger] text[i] != line_break(),
        n < text.len() ==> text[n] == line_break(),
    ensures
        first_line_length(text) == n,
    decreases text.len(),
{
    if n > 0 {
        let rest = text.drop_first();
        lemma_first_line_length_is(rest, n - 1);
    }
}

/// A text has at least one line, and none of its lines holds a line break.
pub proof fn lemma_lines_of(text: Seq<char>)
    ensures
        lines_of(text).len() >= 1,
        forall|i: int| 0 <= i < lines_of(text).len() ==> is_one_line(#[trigger] lines_of(text)[i]),
    decreases text.len(),
{
    lemma_first_line_length(text);
    let n = first_line_length(text) as int;
    if n < text.len() {
        let rest = text.skip(n + 1);
        lemma_lines_of(rest);
    }
}

/// The lines of a text that ends with a line break and one more line are
/// the lines of what stands before the line break, and that line.
pub proof fn lemma_lines_of_push(text: Seq<char>, line: Seq<char>)
    requires
        is_one_line(line),
    ensures
        lines_of(text + seq![line_break()] + line) == lines_of(text).push(line),
    decreases text.len(),
{
    let whole = text + seq![line_break()] + line;
    let n = first_line_length(text) as int;
    lemma_first_line_length(text);
    if n < text.len() {
        lemma_first_line_length_is(whole, n);
        assert(whole.take(n) =~= text.take(n));
        assert(whole.skip(n + 1) =~= text.skip(n + 1) + seq![line_break()] + line);
        lemma_lines_of_push(text.skip(n + 1), line);
    } else {
        lemma_first_line_length_is(whole, n);
        assert(whole.take(n) =~= text);
        assert(whole.skip(n + 1) =~= line);
        lemma_first_line_length_is(line, line.len() as int);
        assert(lines_of(line) == seq![line]);
    }
}

/// To join lines and to part them again gives the lines back.
pub proof fn lemma_lines_of_joined(lines: Seq<Seq<char>>)
    requires
        lines.len() >= 1,
        forall|i: int| 0 <= i < lines.len() ==> is_one_line(#[trigger] lines[i]),
    ensures
        lines_of(joined(lines)) == lines,
    decreases lines.len(),
{
    if lines.len() == 1 {
        lemma_first_line_length_is(lines[0], lines[0].len() as int);
    } else {
        let before = lines.drop_last();
        lemma_lines_of_joined(before);
        lemma_lines_of_push(joined(before), lines.last());
    }
}

/// Line by line: the unindented text has as many lines as the text. Its
/// first line is the first line of the text, and each of its other lines is
/// the line of the text without the indentation that those lines have in
/// common.
pub proof fn lemma_unindented_lines(text: Seq<char>)
    ensures
        ({
            let lines = lines_of(text);
            let others = lines.drop_first();
            let indent = common_indent(others);
            &&& lines_of(unindented(text)).len() == lines.len()
            &&& lines_of(unindented(text))[0] == lines[0]
            &&& forall|i: int|
                1 <= i < lines.len() ==> #[trigger] lines_of(unindented(text))[i] == outdented(
                    lines[i],
                    indent,
                )
        }),
{
    let lines = lines_of(text);
    let others = lines.drop_first();
    let indent = common_indent(others);
    let result = seq![lines[0]] + all_outdented(others, indent);
    lemma_lines_of(text);
    assert forall|i: int| 0 <= i < result.len() implies is_one_line(#[trigger] result[i]) by {
        if i > 0 {
            assert(is_one_line(lines[i]));
        }
    }
    lemma_lines_of_joined(result);
}

/// What the lines have in common: no line that holds more than blanks has
/// fewer leading blanks than the common indentation, and, where there is
/// such a line at all, one of them has exactly as many.
pub proof fn lemma_common_indent(lines: Seq<Seq<char>>)
    ensures
        forall|i: int|
            0 <= i < lines.len() && !is_blank_line(#[trigger] lines[i]) ==> common_indent(lines)
                <= leading_blanks(lines[i]),
        least_indent(lines) is Some <==> exists|i: int|
            0 <= i < lines.len() && !is_blank_line(#[trigger] lines[i]),
        least_indent(lines) is Some ==> exists|i: int|
            0 <= i < lines.len() && !is_blank_line(#[trigger] lines[i]) && leading_blanks(lines[i])
                == common_indent(lines),
    decreases lines.len(),
{
    if lines.len() > 0 {
        let before = lines.drop_last();
        let last = lines.len() - 1;
        lemma_common_indent(before);
        assert forall|i: int| 0 <= i < lines.len() && !is_blank_line(#[trigger] lines[i]) implies
            common_indent(lines) <= leading_blanks(lines[i]) by {
            if i < last {
                assert(lines[i] == before[i]);
            }
        }
        if least_indent(before) is None && is_blank_line(lines[last]) {
            assert forall|i: int| 0 <= i < lines.len() implies is_blank_line(
                #[trigger] lines[i],
            ) by {
                if i < last {
                    assert(lines[i] == before[i]);
                }
            }
        }
    }
}

/// The leading blanks of a line from a place within them on are the blanks
/// that are left.
pub proof fn lemma_leading_blanks_skip(line: Seq<char>, indent: nat)
    requires
        indent <= leading_blanks(line),
    ensures
        leading_blanks(line) <= line.len(),
        leading_blanks(line.skip(indent as int)) == leading_blanks(line) - indent,
    decreases line.len(),
{
    if line.len() > 0 && is_blank(line[0]) {
        if indent > 0 {
            lemma_leading_blanks_skip(line.drop_first(), (indent - 1) as nat);
            assert(line.drop_first().skip(indent - 1) =~= line.skip(indent as int));
        } else {
            lemma_leading_blanks_skip(line.drop_first(), 0);
            assert(line.skip(0) =~= line);
        }
    }
}

/// Indentation is kept relative to the common indentation: a line that
/// holds more than blanks loses exactly the common indentation, all of it
/// from its leading blanks.
pub proof fn lemma_relative_indent_kept(lines: Seq<Seq<char>>, at: int)
    requires
        0 <= at < lines.len(),
        !is_blank_line(lines[at]),
    ensures
        ({
            let indent = common_indent(lines);
            let line = lines[at];
            &&& outdented(line, indent) == line.skip(indent as int)
            &&& outdented(line, indent).len() == line.len() - indent
            &&& leading_blanks(outdented(line, indent)) == leading_blanks(line) - indent
        }),
{
    lemma_common_indent(lines);
    lemma_leading_blanks_skip(lines[at], common_indent(lines));
}

/// `unindent::unindent`, for a text that does not begin with the end of a
/// line. The contract states the rules by which the crate describes what it
/// does: the leading spaces and tabs of each line are counted, but for the
/// first line and the lines that hold nothing else; the least count is
/// taken; so many characters are removed from the beginning of each line
/// after the first.
#[verifier::external_body]
pub(crate) fn unindent(text: &str) -> (out: String)
    requires
        begins_plainly(text@),
    ensures
        out@ == unindented(text@),
{
    unindent::unindent(text)
}

} // verus!
