//! Settings that a set of flags selects, and the text they are applied to.

use vstd::hash_set::StringHashSet;
use vstd::prelude::*;
use crate::chars::carriage_return_free;
use crate::fold::{fold_empty_lines, folded, lemma_fold_keeps_carriage_return_free};
use crate::number::{lemma_number_keeps_carriage_return_free, number_lines, numbered};
use crate::render::{
    lemma_render_keeps_carriage_return_free, lemma_render_nothing, render_non_printing, rendered,
};

verus! {

/// The flag with the given letter: a hyphen and the letter.
pub open spec fn flag(letter: char) -> Seq<char> {
    seq!['-', letter]
}

/// Which lines get a number.
#[derive(Clone, Copy, Debug, PartialEq, Eq, Structural)]
pub enum LineNumbers {
    /// Every line but the empty ones.
    OmitBlank,
    /// Every line.
    Default,
    /// No line.
    Off,
}

/// Which characters are shown by a mark.
#[derive(Clone, Copy, Debug, PartialEq, Eq, Structural)]
pub enum NonPrintChars {
    /// Line ends.
    EOL,
    /// Tabs and form feeds.
    TabsAndFormFeeds,
    /// Line ends, tabs and form feeds.
    Both,
    /// Asked for, but nothing is marked.
    Default,
    /// Nothing.
    Off,
}

impl LineNumbers {
    /// The numbering that `flags` select: `-b` numbers the lines that are not
    /// empty and wins over `-n`, which numbers every line.
    pub open spec fn selected(flags: Set<Seq<char>>) -> LineNumbers {
        if flags.contains(flag('b')) {
            LineNumbers::OmitBlank
        } else if flags.contains(flag('n')) {
            LineNumbers::Default
        } else {
            LineNumbers::Off
        }
    }

    /// Finds the numbering that `flags` select.
    pub fn find(flags: &StringHashSet) -> (mode: Self)
        ensures
            mode == Self::selected(flags@),
    {
        proof {
            reveal_strlit("-b");
            reveal_strlit("-n");
            assert("-b"@ =~= flag('b'));
            assert("-n"@ =~= flag('n'));
        }
        if flags.contains("-b") {
            LineNumbers::OmitBlank
        } else if flags.contains("-n") {
            LineNumbers::Default
        } else {
            LineNumbers::Off
        }
    }
}

impl NonPrintChars {
    /// The marks that `flags` select: `-e` marks line ends, `-t` tabs and form
    /// feeds, the two together both. Without them `-v` selects `Default`.
    pub open spec fn selected(flags: Set<Seq<char>>) -> NonPrintChars {
        if flags.contains(flag('e')) && flags.contains(flag('t')) {
            NonPrintChars::Both
        } else if flags.contains(flag('e')) {
            NonPrintChars::EOL
        } else if flags.contains(flag('t')) {
            NonPrintChars::TabsAndFormFeeds
        } else if flags.contains(flag('v')) {
            NonPrintChars::Default
        } else {
            NonPrintChars::Off
        }
    }

    /// Finds the marks that `flags` select.
    pub fn find(flags: &StringHashSet) -> (mode: Self)
        ensures
            mode == Self::selected(flags@),
    {
        proof {
            reveal_strlit("-e");
            reveal_strlit("-t");
            reveal_strlit("-v");
            assert("-e"@ =~= flag('e'));
            assert("-t"@ =~= flag('t'));
            assert("-v"@ =~= flag('v'));
        }
        if flags.contains("-e") && flags.contains("-t") {
            NonPrintChars::Both
        } else if flags.contains("-e") {
            NonPrintChars::EOL
        } else if flags.contains("-t") {
            NonPrintChars::TabsAndFormFeeds
        } else if flags.contains("-v") {
            NonPrintChars::Default
        } else {
            NonPrintChars::Off
        }
    }
}

/// `text` without its carriage returns.
pub open spec fn without_carriage_returns(text: Seq<char>) -> Seq<char> {
    text.filter(|c: char| c != '\r')
}

/// `text` as it is displayed under the three settings: folded where `fold`
/// is set, its lines numbered as `numbers` says, and what `marks` names shown
/// by a mark, in this order.
pub open spec fn displayed(
    text: Seq<char>,
    fold: bool,
    numbers: LineNumbers,
    marks: NonPrintChars,
) -> Seq<char> {
    rendered(
        numbered(
            if fold {
                folded(text)
            } else {
                text
            },
            numbers,
        ),
        marks,
    )
}

/// What is written for the text `string` under the set `flags`.
pub open spec fn written(string: Seq<char>, flags: Set<Seq<char>>) -> Seq<char> {
    displayed(
        without_carriage_returns(string),
        flags.contains(flag('r')),
        LineNumbers::selected(flags),
        NonPrintChars::selected(flags),
    )
}

/// Taking the carriage returns out of a text leaves none, and leaves a text
/// without any as it is.
pub proof fn lemma_without_carriage_returns(text: Seq<char>)
    ensures
        carriage_return_free(without_carriage_returns(text)),
        carriage_return_free(text) ==> without_carriage_returns(text) == text,
    decreases text.len(),
{
    reveal(Seq::filter);
    if text.len() > 0 {
        lemma_without_carriage_returns(text.drop_last());
    }
}

/// Whatever the settings, a text without carriage returns is displayed
/// without any.
pub proof fn lemma_displayed_carriage_return_free(
    text: Seq<char>,
    fold: bool,
    numbers: LineNumbers,
    marks: NonPrintChars,
)
    requires
        carriage_return_free(text),
    ensures
        carriage_return_free(displayed(text, fold, numbers, marks)),
{
    let first = if fold {
        folded(text)
    } else {
        text
    };
    if fold {
        lemma_fold_keeps_carriage_return_free(text);
    }
    lemma_number_keeps_carriage_return_free(first, numbers);
    lemma_render_keeps_carriage_return_free(numbered(first, numbers), marks);
}

/// No carriage return is written, whatever the text and the flags.
pub proof fn lemma_written_carriage_return_free(string: Seq<char>, flags: Set<Seq<char>>)
    ensures
        carriage_return_free(written(string, flags)),
{
    lemma_without_carriage_returns(string);
    lemma_displayed_carriage_return_free(
        without_carriage_returns(string),
        flags.contains(flag('r')),
        LineNumbers::selected(flags),
        NonPrintChars::selected(flags),
    );
}

/// Under the empty set of flags a text without carriage returns is written
/// as it is.
pub proof fn lemma_no_flags_write_text(text: Seq<char>)
    requires
        carriage_return_free(text),
    ensures
        written(text, Set::empty()) == text,
{
    lemma_without_carriage_returns(text);
    lemma_render_nothing(text, NonPrintChars::Off);
}

/// Only the six flags count: a set of flags writes what its part within
/// `-b`, `-n`, `-e`, `-t`, `-v` and `-r` writes.
pub proof fn lemma_other_flags_ignored(text: Seq<char>, flags: Set<Seq<char>>)
    ensures
        written(text, flags) == written(
            text,
            flags.intersect(
                set![flag('b'), flag('n'), flag('e'), flag('t'), flag('v'), flag('r')],
            ),
        ),
{
}

/// Copies `text` without its carriage returns.
pub fn strip_carriage_returns(text: &str) -> (out: String)
    ensures
        out@ == without_carriage_returns(text@),
        carriage_return_free(out@),
{
    let mut out = String::new();
    for c in it: text.chars()
        invariant
            it.seq() == text@,
            out@ == without_carriage_returns(text@.take(it.index() as int)),
    {
        proof {
            reveal(Seq::filter);
            assert(text@.take(it.index() + 1).drop_last() =~= text@.take(it.index() as int));
        }
        if c != '\r' {
            out.push(c);
        }
    }
    proof {
        assert(text@.take(text@.len() as int) =~= text@);
        lemma_without_carriage_returns(text@);
    }
    out
}

/// A text and the settings under which it is displayed.
pub struct FlaggedString {
    line_numbers: LineNumbers,
    non_print_chars: NonPrintChars,
    fold_empty_lines: bool,
    string: String,
}

impl FlaggedString {
    /// The text holds no carriage return.
    #[verifier::type_invariant]
    spec fn well_formed(&self) -> bool {
        carriage_return_free(self.string@)
    }

    /// Which lines get a number.
    pub closed spec fn line_numbers(&self) -> LineNumbers {
        self.line_numbers
    }

    /// Which characters are shown by a mark.
    pub closed spec fn non_print_chars(&self) -> NonPrintChars {
        self.non_print_chars
    }

    /// Whether blank lines are folded.
    pub closed spec fn fold_empty_lines(&self) -> bool {
        self.fold_empty_lines
    }

    /// The text that is displayed.
    pub closed spec fn text(&self) -> Seq<char> {
        self.string@
    }

    /// What `make_string` returns.
    pub open spec fn output(&self) -> Seq<char> {
        displayed(
            self.text(),
            self.fold_empty_lines(),
            self.line_numbers(),
            self.non_print_chars(),
        )
    }

    /// Takes the carriage returns out of `string` and keeps it with the
    /// settings that `flags` select. `-r` asks for folding.
    pub fn new(string: String, flags: &StringHashSet) -> (made: Self)
        ensures
            made.line_numbers() == LineNumbers::selected(flags@),
            made.non_print_chars() == NonPrintChars::selected(flags@),
            made.fold_empty_lines() == flags@.contains(flag('r')),
            made.text() == without_carriage_returns(string@),
            made.output() == written(string@, flags@),
    {
        proof {
            reveal_strlit("-r");
            assert("-r"@ =~= flag('r'));
        }
        Self {
            line_numbers: LineNumbers::find(flags),
            non_print_chars: NonPrintChars::find(flags),
            fold_empty_lines: flags.contains("-r"),
            string: strip_carriage_returns(string.as_str()),
        }
    }

    /// Writes the text as the settings say: folds it, numbers its lines and
    /// sets the marks, in this order. No carriage return is written.
    pub fn make_string(&self) -> (out: String)
        ensures
            out@ == self.output(),
            carriage_return_free(out@),
    {
        proof {
            use_type_invariant(self);
        }
        let folded_string = if self.fold_empty_lines {
            fold_empty_lines(self.string.as_str())
        } else {
            self.string.clone()
        };
        let numbered_string = match self.line_numbers {
            LineNumbers::Off => folded_string,
            _ => number_lines(folded_string.as_str(), self.line_numbers),
        };
        let nonprint_string = match self.non_print_chars {
            NonPrintChars::Off | NonPrintChars::Default => numbered_string,
            _ => render_non_printing(numbered_string.as_str(), self.non_print_chars),
        };
        proof {
            lemma_displayed_carriage_return_free(
                self.string@,
                self.fold_empty_lines,
                self.line_numbers,
                self.non_print_chars,
            );
            if self.non_print_chars == NonPrintChars::Off || self.non_print_chars
                == NonPrintChars::Default {
                lemma_render_nothing(numbered_string@, self.non_print_chars);
            }
        }
        nonprint_string
    }
}

} // verus!
