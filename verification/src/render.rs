//! Marks for line ends, tabs and form feeds.

use vstd::prelude::*;
use crate::chars::{carriage_return_free, newline_count};
use crate::flags::NonPrintChars;

verus! {

/// `mode` marks line ends.
pub open spec fn marks_line_ends(mode: NonPrintChars) -> bool {
    mode == NonPrintChars::EOL || mode == NonPrintChars::Both
}

/// `mode` marks tabs and form feeds.
pub open spec fn marks_tabs(mode: NonPrintChars) -> bool {
    mode == NonPrintChars::TabsAndFormFeeds || mode == NonPrintChars::Both
}

/// What is written for the character `c`: `$` and the line feed for a line
/// feed, `^I` for a tab, `^L` for a form feed, where `mode` marks them; else
/// the character itself.
pub open spec fn rendered_char(c: char, mode: NonPrintChars) -> Seq<char> {
    if c == '\n' && marks_line_ends(mode) {
        seq!['$', '\n']
    } else if c == '\t' && marks_tabs(mode) {
        seq!['^', 'I']
    } else if c == '\x0c' && marks_tabs(mode) {
        seq!['^', 'L']
    } else {
        seq![c]
    }
}

/// What is written for `text`: what is written for each of its characters,
/// one after the other.
pub open spec fn rendered(text: Seq<char>, mode: NonPrintChars) -> Seq<char>
    decreases text.len(),
{
    if text.len() == 0 {
        Seq::empty()
    } else {
        rendered(text.drop_last(), mode) + rendered_char(text.last(), mode)
    }
}

/// Every line feed of `text` has a `$` directly before it.
pub open spec fn line_ends_marked(text: Seq<char>) -> bool {
    forall|i: int|
        0 <= i < text.len() && #[trigger] text[i] == '\n' ==> i >= 1 && text[i - 1] == '$'
}

/// A mode that marks nothing leaves the text as it is.
pub proof fn lemma_render_nothing(text: Seq<char>, mode: NonPrintChars)
    requires
        !marks_line_ends(mode),
        !marks_tabs(mode),
    ensures
        rendered(text, mode) == text,
    decreases text.len(),
{
    if text.len() > 0 {
        lemma_render_nothing(text.drop_last(), mode);
    }
}

/// The line feeds of two texts, one after the other, are those of both.
pub proof fn lemma_newline_count_add(a: Seq<char>, b: Seq<char>)
    ensures
        newline_count(a + b) == newline_count(a) + newline_count(b),
    decreases b.len(),
{
    if b.len() > 0 {
        lemma_newline_count_add(a, b.drop_last());
        assert((a + b).drop_last() =~= a + b.drop_last());
    }
}

/// Rendering keeps the number of line feeds, whatever the mode. Where the
/// mode marks line ends, every line feed written has a `$` directly before it.
pub proof fn lemma_render_line_ends(text: Seq<char>, mode: NonPrintChars)
    ensures
        newline_count(rendered(text, mode)) == newline_count(text),
        marks_line_ends(mode) ==> line_ends_marked(rendered(text, mode)),
    decreases text.len(),
{
    if text.len() > 0 {
        let head = rendered(text.drop_last(), mode);
        let tail = rendered_char(text.last(), mode);
        lemma_render_line_ends(text.drop_last(), mode);
        lemma_newline_count_add(head, tail);
        reveal_with_fuel(newline_count, 3);
    }
}

/// Rendering brings no carriage return into a text.
pub proof fn lemma_render_keeps_carriage_return_free(text: Seq<char>, mode: NonPrintChars)
    requires
        carriage_return_free(text),
    ensures
        carriage_return_free(rendered(text, mode)),
    decreases text.len(),
{
    if text.len() > 0 {
        lemma_render_keeps_carriage_return_free(text.drop_last(), mode);
    }
}

/// Writes `text` with the marks that `mode` asks for.
pub fn render_non_printing(text: &str, mode: NonPrintChars) -> (out: String)
    ensures
        out@ == rendered(text@, mode),
{
    let line_ends = match mode {
        NonPrintChars::EOL | NonPrintChars::Both => true,
        _ => false,
    };
    let tabs = match mode {
        NonPrintChars::TabsAndFormFeeds | NonPrintChars::Both => true,
        _ => false,
    };
    let mut out = String::new();
    for c in it: text.chars()
        invariant
            it.seq() == text@,
            line_ends == marks_line_ends(mode),
            tabs == marks_tabs(mode),
            out@ == rendered(text@.take(it.index() as int), mode),
    {
        proof {
            assert(text@.take(it.index() + 1).drop_last() =~= text@.take(it.index() as int));
        }
        if c == '\n' && line_ends {
            out.push('$');
            out.push('\n');
        } else if c == '\t' && tabs {
            out.push('^');
            out.push('I');
        } else if c == '\x0c' && tabs {
            out.push('^');
            out.push('L');
        } else {
            out.push(c);
        }
    }
    assert(text@.take(text@.len() as int) =~= text@);
    out
}

} // verus!
