//! Folding of blank lines: of every run of line feeds only the first two stay.

use vstd::prelude::*;
use crate::chars::carriage_return_free;

verus! {

/// Whether the character at `i` stays when `text` is folded: every character
/// does, but a line feed that directly follows two other line feeds.
pub open spec fn survives(text: Seq<char>, i: int) -> bool {
    !(i >= 2 && text[i] == '\n' && text[i - 1] == '\n' && text[i - 2] == '\n')
}

/// `text` without the characters that do not survive, in their old order.
pub open spec fn folded(text: Seq<char>) -> Seq<char>
    decreases text.len(),
{
    if text.len() == 0 {
        text
    } else if survives(text, text.len() - 1) {
        folded(text.drop_last()).push(text.last())
    } else {
        folded(text.drop_last())
    }
}

/// Nowhere in `text` do three line feeds stand in a row.
pub open spec fn runs_bounded(text: Seq<char>) -> bool {
    forall|i: int| 0 <= i < text.len() ==> #[trigger] survives(text, i)
}

/// `text` ends with a line feed.
pub open spec fn ends_line(text: Seq<char>) -> bool {
    text.len() >= 1 && text.last() == '\n'
}

/// `text` ends with two line feeds.
pub open spec fn ends_blank_line(text: Seq<char>) -> bool {
    text.len() >= 2 && text[text.len() - 1] == '\n' && text[text.len() - 2] == '\n'
}

/// Folding keeps how a text ends and leaves no run of three line feeds.
proof fn lemma_folded_shape(text: Seq<char>)
    ensures
        ends_line(folded(text)) == ends_line(text),
        ends_blank_line(folded(text)) == ends_blank_line(text),
        runs_bounded(folded(text)),
    decreases text.len(),
{
    if text.len() > 0 {
        let head = text.drop_last();
        lemma_folded_shape(head);
        let out = folded(text);
        if survives(text, text.len() - 1) {
            assert forall|i: int| 0 <= i < out.len() implies #[trigger] survives(out, i) by {
                if i < out.len() - 1 {
                    assert(survives(folded(head), i));
                }
            }
        }
    }
}

/// A text without a run of three line feeds is its own folding.
proof fn lemma_folded_fixed(text: Seq<char>)
    requires
        runs_bounded(text),
    ensures
        folded(text) == text,
    decreases text.len(),
{
    if text.len() > 0 {
        let head = text.drop_last();
        assert forall|i: int| 0 <= i < head.len() implies #[trigger] survives(head, i) by {
            assert(survives(text, i));
        }
        lemma_folded_fixed(head);
    }
}

/// Folding leaves at most two line feeds in a row, whatever the text.
pub proof fn lemma_fold_bounds_runs(text: Seq<char>)
    ensures
        runs_bounded(folded(text)),
        forall|i: int|
            0 <= i && i + 2 < folded(text).len() && #[trigger] folded(text)[i] == '\n' ==> !(
            folded(text)[i + 1] == '\n' && folded(text)[i + 2] == '\n'),
{
    lemma_folded_shape(text);
    let out = folded(text);
    assert forall|i: int| 0 <= i && i + 2 < out.len() && #[trigger] out[i] == '\n' implies !(out[i
        + 1] == '\n' && out[i + 2] == '\n') by {
        assert(survives(out, i + 2));
    }
}

/// Folding twice gives what folding once gives.
pub proof fn lemma_fold_idempotent(text: Seq<char>)
    ensures
        folded(folded(text)) == folded(text),
{
    lemma_folded_shape(text);
    lemma_folded_fixed(folded(text));
}

/// Folding a text that holds no carriage return gives such a text.
pub proof fn lemma_fold_keeps_carriage_return_free(text: Seq<char>)
    requires
        carriage_return_free(text),
    ensures
        carriage_return_free(folded(text)),
    decreases text.len(),
{
    if text.len() > 0 {
        lemma_fold_keeps_carriage_return_free(text.drop_last());
    }
}

/// Folds the blank lines of `text`: copies it character by character and
/// leaves out each line feed that directly follows two line feeds.
pub fn fold_empty_lines(text: &str) -> (out: String)
    ensures
        out@ == folded(text@),
{
    let mut out = String::new();
    let mut run: u8 = 0;
    for c in it: text.chars()
        invariant
            it.seq() == text@,
            out@ == folded(text@.take(it.index() as int)),
            run <= 2,
            run >= 1 <==> ends_line(text@.take(it.index() as int)),
            run == 2 <==> ends_blank_line(text@.take(it.index() as int)),
    {
        assert(text@.take(it.index() + 1).drop_last() =~= text@.take(it.index() as int));
        if c == '\n' {
            if run < 2 {
                out.push(c);
                run = run + 1;
            }
        } else {
            out.push(c);
            run = 0;
        }
    }
    assert(text@.take(text@.len() as int) =~= text@);
    out
}

} // verus!
