//! Lines of a text: the maximal runs of characters without a line feed.

use vstd::prelude::*;

verus! {

/// The number of characters of `text` that stand before its first line feed;
/// the length of `text` where it holds none.
pub open spec fn first_line_len(text: Seq<char>) -> nat
    decreases text.len(),
{
    if text.len() == 0 || text[0] == '\n' {
        0
    } else {
        1 + first_line_len(text.skip(1))
    }
}

/// The lines of `text`. Each line feed ends one line; what follows the last
/// line feed is a line too, unless it is empty. The lines hold no line feed.
pub open spec fn lines(text: Seq<char>) -> Seq<Seq<char>>
    decreases text.len(),
{
    if text.len() == 0 {
        Seq::empty()
    } else {
        let n = first_line_len(text);
        if n >= text.len() {
            seq![text]
        } else {
            seq![text.take(n as int)] + lines(text.skip(n as int + 1))
        }
    }
}

/// `line` holds no line feed.
pub open spec fn is_line(line: Seq<char>) -> bool {
    forall|i: int| 0 <= i < line.len() ==> line[i] != '\n'
}

/// A new line begins at the end of `text`: it is empty or ends with a line
/// feed.
pub open spec fn at_line_start(text: Seq<char>) -> bool {
    text.len() == 0 || text.last() == '\n'
}

/// Each of `ls` followed by a line feed, one after the other.
pub open spec fn joined(ls: Seq<Seq<char>>) -> Seq<char>
    decreases ls.len(),
{
    if ls.len() == 0 {
        Seq::empty()
    } else {
        joined(ls.drop_last()) + ls.last().push('\n')
    }
}

/// `first_line_len` is the place of the first line feed.
pub proof fn lemma_first_line_len(text: Seq<char>)
    ensures
        first_line_len(text) <= text.len(),
        is_line(text.take(first_line_len(text) as int)),
        first_line_len(text) < text.len() ==> text[first_line_len(text) as int] == '\n',
    decreases text.len(),
{
    if !(text.len() == 0 || text[0] == '\n') {
        let rest = text.skip(1);
        lemma_first_line_len(rest);
        let n = first_line_len(text);
        assert forall|i: int| 0 <= i < n implies text.take(n as int)[i] != '\n' by {
            if i > 0 {
                assert(rest.take(n - 1)[i - 1] == text[i]);
            }
        }
    }
}

/// A place `n` with a line feed, or the end of `text`, before which no line
/// feed stands, is `first_line_len(text)`.
pub proof fn lemma_first_line_len_is(text: Seq<char>, n: nat)
    requires
        n <= text.len(),
        is_line(text.take(n as int)),
        n < text.len() ==> text[n as int] == '\n',
    ensures
        first_line_len(text) == n,
    decreases text.len(),
{
    if text.len() == 0 {
    } else if text[0] == '\n' {
        if n > 0 {
            assert(text.take(n as int)[0] == '\n');
        }
    } else {
        let rest = text.skip(1);
        let shorter = rest.take(n - 1);
        assert forall|i: int| 0 <= i < shorter.len() implies shorter[i] != '\n' by {
            assert(text.take(n as int)[i + 1] == rest[i]);
        }
        lemma_first_line_len_is(rest, (n - 1) as nat);
    }
}

/// A text has a line exactly where it has a character.
pub proof fn lemma_lines_empty(text: Seq<char>)
    ensures
        (lines(text).len() == 0) == (text.len() == 0),
{
}

/// What one more character does to the lines of a text. A line feed ends the
/// line that is open, or adds an empty line where none is open. Another
/// character lengthens the open line, or opens a line.
pub proof fn lemma_lines_push(text: Seq<char>, c: char)
    ensures
        lines(text.push(c)) == if c == '\n' {
            if at_line_start(text) {
                lines(text).push(Seq::empty())
            } else {
                lines(text)
            }
        } else {
            if at_line_start(text) {
                lines(text).push(seq![c])
            } else {
                lines(text).drop_last().push(lines(text).last().push(c))
            }
        },
    decreases text.len(),
{
    let more = text.push(c);
    if text.len() == 0 {
        if c == '\n' {
            assert(more.take(0) =~= Seq::<char>::empty());
            assert(lines(more.skip(1)) =~= Seq::<Seq<char>>::empty());
        } else {
            assert(more =~= seq![c]);
        }
    } else {
        let n = first_line_len(text) as int;
        lemma_first_line_len(text);
        if n >= text.len() {
            assert(text.take(n) =~= text);
            if c == '\n' {
                assert(more.take(n) =~= text);
                lemma_first_line_len_is(more, n as nat);
                assert(lines(more.skip(n + 1)) =~= Seq::<Seq<char>>::empty());
            } else {
                lemma_first_line_len_is(more, (n + 1) as nat);
            }
        } else {
            let rest = text.skip(n + 1);
            assert(more.take(n) =~= text.take(n));
            lemma_first_line_len_is(more, n as nat);
            assert(more.skip(n + 1) =~= rest.push(c));
            lemma_lines_push(rest, c);
            lemma_lines_empty(rest);
            let first = seq![text.take(n)];
            if c == '\n' {
                if at_line_start(rest) {
                    assert(first + lines(rest).push(Seq::empty()) =~= (first + lines(rest)).push(
                        Seq::empty(),
                    ));
                }
            } else {
                if at_line_start(rest) {
                    assert(first + lines(rest).push(seq![c]) =~= (first + lines(rest)).push(
                        seq![c],
                    ));
                } else {
                    let open = lines(rest).last().push(c);
                    assert(first + lines(rest).drop_last().push(open) =~= (first + lines(
                        rest,
                    )).drop_last().push(open));
                }
            }
        }
    }
}

/// No line of a text holds a line feed.
pub proof fn lemma_lines_are_lines(text: Seq<char>)
    ensures
        forall|i: int| 0 <= i < lines(text).len() ==> is_line(#[trigger] lines(text)[i]),
    decreases text.len(),
{
    if text.len() > 0 {
        let head = text.drop_last();
        lemma_lines_are_lines(head);
        lemma_lines_push(head, text.last());
        lemma_lines_empty(head);
        assert(head.push(text.last()) =~= text);
    }
}

/// Every character of a line of a text is a character of the text.
pub proof fn lemma_lines_hold_text(text: Seq<char>)
    ensures
        forall|i: int, j: int|
            0 <= i < lines(text).len() && 0 <= j < lines(text)[i].len() ==> text.contains(
                #[trigger] lines(text)[i][j],
            ),
    decreases text.len(),
{
    if text.len() > 0 {
        let head = text.drop_last();
        let c = text.last();
        lemma_lines_hold_text(head);
        lemma_lines_push(head, c);
        lemma_lines_empty(head);
        assert(head.push(c) =~= text);
        assert forall|i: int, j: int|
            0 <= i < lines(text).len() && 0 <= j < lines(text)[i].len() implies text.contains(
            #[trigger] lines(text)[i][j],
        ) by {
            let x = lines(text)[i][j];
            if x != c {
                let at = choose|at: int| 0 <= at < head.len() && head[at] == x;
                assert(text[at] == x);
            }
        }
    }
}

/// The lines of a text, each with its line feed, make up the text again, with
/// a line feed at its end where it had none.
pub proof fn lemma_lines_joined(text: Seq<char>)
    ensures
        joined(lines(text)) == if at_line_start(text) {
            text
        } else {
            text.push('\n')
        },
    decreases text.len(),
{
    if text.len() > 0 {
        let head = text.drop_last();
        let c = text.last();
        lemma_lines_joined(head);
        lemma_lines_push(head, c);
        lemma_lines_empty(head);
        assert(head.push(c) =~= text);
        let ls = lines(head);
        if c == '\n' {
            if at_line_start(head) {
                assert(ls.push(Seq::empty()).drop_last() =~= ls);
            }
        } else {
            if at_line_start(head) {
                assert(ls.push(seq![c]).drop_last() =~= ls);
            } else {
                let open = ls.last().push(c);
                assert(ls.drop_last().push(open).drop_last() =~= ls.drop_last());
                assert(head.push('\n').drop_last() =~= head);
            }
        }
    }
}

/// After a text that ends a line, a line and its line feed add that line to
/// the lines of the text.
pub proof fn lemma_lines_append_line(text: Seq<char>, line: Seq<char>)
    requires
        at_line_start(text),
        is_line(line),
    ensures
        lines(text + line.push('\n')) == lines(text).push(line),
        line.len() > 0 ==> lines(text + line) == lines(text).push(line),
    decreases line.len(),
{
    if line.len() == 0 {
        lemma_lines_push(text, '\n');
        assert(text + line.push('\n') =~= text.push('\n'));
        assert(line =~= Seq::<char>::empty());
    } else {
        let head = line.drop_last();
        let c = line.last();
        lemma_lines_append_line(text, head);
        lemma_lines_push(text + head, c);
        lemma_lines_empty(text + head);
        assert(head.push(c) =~= line);
        if head.len() == 0 {
            assert(seq![c] =~= line);
        }
        lemma_lines_push(text + line, '\n');
    }
}

/// Splits `text` into its lines.
pub fn split_lines(text: &str) -> (ls: Vec<String>)
    ensures
        ls.deep_view() == lines(text@),
{
    let mut ls: Vec<String> = Vec::new();
    let mut line = String::new();
    let mut open = false;
    for c in it: text.chars()
        invariant
            it.seq() == text@,
            open == !at_line_start(text@.take(it.index() as int)),
            !open ==> line@.len() == 0 && ls.deep_view() == lines(
                text@.take(it.index() as int),
            ),
            open ==> ls.deep_view().push(line@) == lines(text@.take(it.index() as int)),
    {
        let ghost seen = text@.take(it.index() as int);
        let ghost ended = line@;
        proof {
            lemma_lines_push(seen, c);
            lemma_lines_empty(seen);
            assert(seen.push(c) =~= text@.take(it.index() + 1));
        }
        if c == '\n' {
            ls.push(line);
            line = String::new();
            open = false;
            assert(ended.len() == 0 ==> ended =~= Seq::<char>::empty());
        } else {
            line.push(c);
            open = true;
            proof {
                if at_line_start(seen) {
                    assert(line@ =~= seq![c]);
                }
            }
        }
    }
    proof {
        assert(text@.take(text@.len() as int) =~= text@);
    }
    if open {
        ls.push(line);
    }
    ls
}

} // verus!
