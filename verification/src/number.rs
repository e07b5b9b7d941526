//! Numbering of lines.

use vstd::prelude::*;
use vstd::string::StringExecFns;
use crate::chars::carriage_return_free;
use crate::decimal::{
    decimal, decimal_len, is_digit, lemma_decimal_digits, lemma_decimal_len_monotonic,
    push_decimal,
};
use crate::flags::LineNumbers;
use crate::lines::{
    at_line_start, is_line, lemma_lines_append_line, lemma_lines_are_lines, lemma_lines_hold_text,
    lines, split_lines,
};

verus! {

/// `n` spaces.
pub open spec fn spaces(n: nat) -> Seq<char> {
    Seq::new(n, |i: int| ' ')
}

/// The width that the numbers of `line_count` lines are laid out for: two
/// more than the digits of `line_count`.
pub open spec fn number_width(line_count: nat) -> nat {
    decimal(line_count).len() + 2
}

/// The number of spaces behind the number of a line before which `before`
/// lines were numbered. The digits of `before`, not those of the number
/// shown, are taken from the width: the content moves one column to the right
/// on the lines numbered 10, 100 and so on.
pub open spec fn padding(before: nat, line_count: nat) -> nat {
    (number_width(line_count) - decimal(before).len()) as nat
}

/// What stands in front of a numbered line: four spaces, the number
/// `before + 1` and the padding.
pub open spec fn line_prefix(before: nat, line_count: nat) -> Seq<char> {
    spaces(4) + decimal(before + 1) + spaces(padding(before, line_count))
}

/// The number of lines among the first `i` of `ls` that are not empty.
pub open spec fn filled_before(ls: Seq<Seq<char>>, i: nat) -> nat
    decreases i,
{
    if i == 0 {
        0
    } else {
        filled_before(ls, (i - 1) as nat) + if ls[i - 1].len() > 0 {
            1nat
        } else {
            0nat
        }
    }
}

/// The number of lines numbered before line `i` of `ls`.
pub open spec fn numbered_before(ls: Seq<Seq<char>>, i: nat, omit_blank: bool) -> nat {
    if omit_blank {
        filled_before(ls, i)
    } else {
        i
    }
}

/// Line `i` of `ls` as it is written out, without its line feed: with its
/// number in front, or bare where it is empty and `omit_blank` is set.
pub open spec fn numbered_line(ls: Seq<Seq<char>>, i: int, omit_blank: bool) -> Seq<char> {
    if omit_blank && ls[i].len() == 0 {
        ls[i]
    } else {
        line_prefix(numbered_before(ls, i as nat, omit_blank), ls.len()) + ls[i]
    }
}

/// The first `k` lines of `ls` as they are written out, a line feed behind
/// each.
pub open spec fn numbered_lines(ls: Seq<Seq<char>>, k: nat, omit_blank: bool) -> Seq<char>
    decreases k,
{
    if k == 0 {
        Seq::empty()
    } else {
        numbered_lines(ls, (k - 1) as nat, omit_blank) + numbered_line(
            ls,
            k - 1,
            omit_blank,
        ).push('\n')
    }
}

/// `text` with its lines numbered as `mode` says. With `Off` the text stays as
/// it is; else every line is written out with a line feed, also a last line
/// that had none.
pub open spec fn numbered(text: Seq<char>, mode: LineNumbers) -> Seq<char> {
    match mode {
        LineNumbers::Off => text,
        LineNumbers::Default => numbered_lines(lines(text), lines(text).len(), false),
        LineNumbers::OmitBlank => numbered_lines(lines(text), lines(text).len(), true),
    }
}

/// No more lines are numbered before a line than stand before it, and fewer
/// before a line that is not empty than in all.
pub proof fn lemma_filled_before(ls: Seq<Seq<char>>, i: nat, j: nat)
    requires
        i <= j <= ls.len(),
    ensures
        filled_before(ls, i) <= i,
        filled_before(ls, i) <= filled_before(ls, j),
        i < j && ls[i as int].len() > 0 ==> filled_before(ls, i) < filled_before(ls, j),
    decreases j,
{
    if i < j {
        lemma_filled_before(ls, i, (j - 1) as nat);
    } else if i > 0 {
        lemma_filled_before(ls, (i - 1) as nat, (i - 1) as nat);
    }
}

/// Where no more lines were numbered before than there are, the padding is
/// what is left of the width, at least two spaces. A prefix holds spaces and
/// digits only.
pub proof fn lemma_line_prefix(before: nat, line_count: nat)
    requires
        before <= line_count,
    ensures
        padding(before, line_count) == number_width(line_count) - decimal(before).len(),
        padding(before, line_count) >= 2,
        forall|i: int|
            0 <= i < line_prefix(before, line_count).len() ==> {
                let c = #[trigger] line_prefix(before, line_count)[i];
                c == ' ' || is_digit(c)
            },
{
    lemma_decimal_len_monotonic(before, line_count);
    lemma_decimal_digits(before + 1);
}

/// A numbered line holds no line feed where the line did not.
proof fn lemma_numbered_line_is_line(ls: Seq<Seq<char>>, i: int, omit_blank: bool)
    requires
        0 <= i < ls.len(),
        is_line(ls[i]),
    ensures
        is_line(numbered_line(ls, i, omit_blank)),
        carriage_return_free(ls[i]) ==> carriage_return_free(numbered_line(ls, i, omit_blank)),
{
    lemma_filled_before(ls, i as nat, i as nat);
    lemma_line_prefix(numbered_before(ls, i as nat, omit_blank), ls.len());
}

/// The lines of a numbered text are the numbered lines, one for one.
proof fn lemma_numbered_lines_split(ls: Seq<Seq<char>>, k: nat, omit_blank: bool)
    requires
        k <= ls.len(),
        forall|i: int| 0 <= i < ls.len() ==> is_line(#[trigger] ls[i]),
    ensures
        at_line_start(numbered_lines(ls, k, omit_blank)),
        lines(numbered_lines(ls, k, omit_blank)) == Seq::new(
            k,
            |i: int| numbered_line(ls, i, omit_blank),
        ),
    decreases k,
{
    if k == 0 {
        assert(lines(numbered_lines(ls, k, omit_blank)) =~= Seq::new(
            k,
            |i: int| numbered_line(ls, i, omit_blank),
        ));
    } else {
        let head = numbered_lines(ls, (k - 1) as nat, omit_blank);
        let line = numbered_line(ls, k - 1, omit_blank);
        lemma_numbered_lines_split(ls, (k - 1) as nat, omit_blank);
        lemma_numbered_line_is_line(ls, k - 1, omit_blank);
        lemma_lines_append_line(head, line);
    }
}

/// Numbering brings no carriage return into a text.
proof fn lemma_numbered_lines_carriage_return_free(ls: Seq<Seq<char>>, k: nat, omit_blank: bool)
    requires
        k <= ls.len(),
        forall|i: int| 0 <= i < ls.len() ==> is_line(#[trigger] ls[i]),
        forall|i: int| 0 <= i < ls.len() ==> carriage_return_free(#[trigger] ls[i]),
    ensures
        carriage_return_free(numbered_lines(ls, k, omit_blank)),
    decreases k,
{
    if k > 0 {
        lemma_numbered_lines_carriage_return_free(ls, (k - 1) as nat, omit_blank);
        lemma_numbered_line_is_line(ls, k - 1, omit_blank);
    }
}

/// Numbering the lines of a text that holds no carriage return gives such a
/// text.
pub proof fn lemma_number_keeps_carriage_return_free(text: Seq<char>, mode: LineNumbers)
    requires
        carriage_return_free(text),
    ensures
        carriage_return_free(numbered(text, mode)),
{
    let ls = lines(text);
    lemma_lines_are_lines(text);
    lemma_lines_hold_text(text);
    assert forall|i: int| 0 <= i < ls.len() implies carriage_return_free(#[trigger] ls[i]) by {
        assert forall|j: int| 0 <= j < ls[i].len() implies ls[i][j] != '\r' by {
            assert(text.contains(ls[i][j]));
        }
    }
    lemma_numbered_lines_carriage_return_free(ls, ls.len(), false);
    lemma_numbered_lines_carriage_return_free(ls, ls.len(), true);
}

/// A numbered text has as many lines as the text, and each of them is the
/// line of the text at its place as `numbered_line` writes it.
pub proof fn lemma_numbering_keeps_lines(text: Seq<char>, mode: LineNumbers)
    requires
        mode != LineNumbers::Off,
    ensures
        lines(numbered(text, mode)).len() == lines(text).len(),
        forall|i: int|
            0 <= i < lines(text).len() ==> #[trigger] lines(numbered(text, mode))[i]
                == numbered_line(lines(text), i, mode == LineNumbers::OmitBlank),
{
    lemma_lines_are_lines(text);
    lemma_numbered_lines_split(lines(text), lines(text).len(), mode == LineNumbers::OmitBlank);
}

/// Numbering every line of a text of `n` lines gives `n` lines. Line `i`,
/// counted from 0, begins with four spaces and the number `i + 1`; the
/// padding and the line itself follow.
pub proof fn lemma_default_numbers_each_line(text: Seq<char>)
    ensures
        lines(numbered(text, LineNumbers::Default)).len() == lines(text).len(),
        forall|i: int|
            0 <= i < lines(text).len() ==> #[trigger] lines(numbered(text, LineNumbers::Default))[i]
                == spaces(4) + decimal((i + 1) as nat) + spaces(
                padding(i as nat, lines(text).len()),
            ) + lines(text)[i],
{
    lemma_numbering_keeps_lines(text, LineNumbers::Default);
}

/// Numbering the lines of a text that are not empty gives as many lines as
/// the text has. Its empty lines stay empty. A line that is not empty begins
/// with four spaces and its number, which is one more than the number of such
/// lines before it. That count starts with 0, rises by 1 behind each such
/// line and stays behind an empty one: the numbers rise from one such line
/// to the next, and none is larger than the number of such lines.
pub proof fn lemma_omit_blank_numbers_filled_lines(text: Seq<char>)
    ensures
        lines(numbered(text, LineNumbers::OmitBlank)).len() == lines(text).len(),
        filled_before(lines(text), 0) == 0,
        forall|i: int|
            0 <= i < lines(text).len() ==> #[trigger] filled_before(lines(text), (i + 1) as nat)
                == filled_before(lines(text), i as nat) + if lines(text)[i].len() > 0 {
                1nat
            } else {
                0nat
            },
        forall|i: int|
            0 <= i < lines(text).len() && lines(text)[i].len() == 0 ==> #[trigger] lines(
                numbered(text, LineNumbers::OmitBlank),
            )[i].len() == 0,
        forall|i: int|
            0 <= i < lines(text).len() && lines(text)[i].len() > 0 ==> #[trigger] lines(
                numbered(text, LineNumbers::OmitBlank),
            )[i] == spaces(4) + decimal(filled_before(lines(text), i as nat) + 1) + spaces(
                padding(filled_before(lines(text), i as nat), lines(text).len()),
            ) + lines(text)[i],
        forall|i: int|
            0 <= i < lines(text).len() && lines(text)[i].len() > 0 ==> #[trigger] filled_before(
                lines(text),
                i as nat,
            ) + 1 <= filled_before(lines(text), lines(text).len()),
        forall|i: int, j: int|
            0 <= i < j < lines(text).len() && lines(text)[i].len() > 0 ==> #[trigger] filled_before(
                lines(text),
                i as nat,
            ) < #[trigger] filled_before(lines(text), j as nat),
{
    let ls = lines(text);
    lemma_numbering_keeps_lines(text, LineNumbers::OmitBlank);
    assert forall|i: int| 0 <= i < ls.len() && ls[i].len() > 0 implies #[trigger] filled_before(
        ls,
        i as nat,
    ) + 1 <= filled_before(ls, ls.len()) by {
        lemma_filled_before(ls, i as nat, ls.len());
    }
    assert forall|i: int, j: int|
        0 <= i < j < ls.len() && ls[i].len() > 0 implies #[trigger] filled_before(ls, i as nat)
        < #[trigger] filled_before(ls, j as nat) by {
        lemma_filled_before(ls, i as nat, j as nat);
    }
}

/// Appends `n` spaces to `out`.
fn push_spaces(out: &mut String, n: usize)
    ensures
        final(out)@ == old(out)@ + spaces(n as nat),
{
    let mut i: usize = 0;
    while i < n
        invariant
            i <= n,
            out@ == old(out)@ + spaces(i as nat),
        decreases n - i,
    {
        out.push(' ');
        i = i + 1;
    }
}

/// Writes out the lines of `text`, each with its line feed: all of them with
/// a number in front, or, where `omit_blank` is set, all but the empty ones.
fn write_numbered(text: &str, omit_blank: bool) -> (out: String)
    ensures
        out@ == numbered_lines(lines(text@), lines(text@).len(), omit_blank),
{
    let ls = split_lines(text);
    let count: usize = ls.len();
    let width: usize = decimal_len(count) + 2;
    let ghost all = ls.deep_view();
    let mut out = String::new();
    let mut before: usize = 0;
    let mut i: usize = 0;
    while i < count
        invariant
            all == ls.deep_view(),
            count == ls.len(),
            width == number_width(count as nat),
            i <= count,
            before == numbered_before(all, i as nat, omit_blank),
            out@ == numbered_lines(all, i as nat, omit_blank),
        decreases count - i,
    {
        let line = ls[i].as_str();
        proof {
            lemma_filled_before(all, i as nat, i as nat);
            lemma_line_prefix(before as nat, count as nat);
        }
        if omit_blank && line.is_empty() {
            out.push('\n');
        } else {
            push_spaces(&mut out, 4);
            push_decimal(&mut out, before + 1);
            push_spaces(&mut out, width - decimal_len(before));
            out.append(line);
            out.push('\n');
            before = before + 1;
        }
        i = i + 1;
    }
    out
}

/// Numbers the lines of `text` as `mode` says.
pub fn number_lines(text: &str, mode: LineNumbers) -> (out: String)
    ensures
        out@ == numbered(text@, mode),
{
    match mode {
        LineNumbers::Off => text.to_owned(),
        LineNumbers::Default => write_numbered(text, false),
        LineNumbers::OmitBlank => write_numbered(text, true),
    }
}

} // verus!
