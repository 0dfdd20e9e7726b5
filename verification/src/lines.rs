//! Lines of a text, and counts over them.
//!
//! A line ends at a line feed, or at a carriage return directly followed by
//! a line feed; the end of the text ends the last line where no line feed
//! does. The line ending is not part of the line.

use crate::text::chars_of;
use vstd::prelude::*;

verus! {

/// The number of characters of `s` that stand before its first line feed.
pub open spec fn first_break(s: Seq<char>) -> nat
    decreases s.len(),
{
    if s.len() == 0 || s[0] == '\n' {
        0
    } else {
        (1 + first_break(s.drop_first())) as nat
    }
}

/// `line` without the carriage return at its end, if it has one.
pub open spec fn without_cr(line: Seq<char>) -> Seq<char> {
    if line.len() > 0 && line.last() == '\r' {
        line.drop_last()
    } else {
        line
    }
}

/// The lines of `s`, in order. The empty text has no line, and a line feed
/// at the very end of the text begins no further line.
pub open spec fn lines(s: Seq<char>) -> Seq<Seq<char>>
    decreases s.len(),
{
    let k = first_break(s) as int;
    if s.len() == 0 {
        Seq::empty()
    } else if k >= s.len() {
        seq![s]
    } else {
        seq![without_cr(s.take(k))] + lines(s.skip(k + 1))
    }
}

/// Whether `line` begins with the character `mark`.
pub open spec fn starts_with(line: Seq<char>, mark: char) -> bool {
    line.len() > 0 && line[0] == mark
}

/// How many of `ls` begin with `mark`.
pub open spec fn count_starting_with(ls: Seq<Seq<char>>, mark: char) -> nat
    decreases ls.len(),
{
    if ls.len() == 0 {
        0
    } else {
        (if starts_with(ls[0], mark) {
            1nat
        } else {
            0nat
        }) + count_starting_with(ls.drop_first(), mark)
    }
}

/// The text that lists `items` one to a line, each followed by a line feed.
pub open spec fn listing(items: Seq<Seq<char>>) -> Seq<char>
    decreases items.len(),
{
    if items.len() == 0 {
        Seq::empty()
    } else {
        items[0] + seq!['\n'] + listing(items.drop_first())
    }
}

/// Whether `item` holds no line feed.
pub open spec fn on_one_line(item: Seq<char>) -> bool {
    forall|i: int| 0 <= i < item.len() ==> item[i] != '\n'
}

/// The first line feed of `t` is where the first `k` characters hold none
/// and either end the text or are followed by one.
proof fn lemma_first_break(t: Seq<char>, k: int)
    requires
        0 <= k <= t.len(),
        forall|i: int| 0 <= i < k ==> t[i] != '\n',
        k == t.len() || t[k] == '\n',
    ensures
        first_break(t) == k,
    decreases k,
{
    if k > 0 {
        lemma_first_break(t.drop_first(), k - 1);
    }
}

/// A text whose first line ends at the line feed at `k` has that line, and
/// then the lines of what follows the line feed.
proof fn lemma_lines_after_break(t: Seq<char>, k: int, mark: char)
    requires
        0 <= k < t.len(),
        forall|i: int| 0 <= i < k ==> t[i] != '\n',
        t[k] == '\n',
        mark != '\r',
    ensures
        lines(t) == seq![without_cr(t.take(k))] + lines(t.skip(k + 1)),
        lines(t).len() == 1 + lines(t.skip(k + 1)).len(),
        count_starting_with(lines(t), mark) == (if k > 0 && t[0] == mark {
            1nat
        } else {
            0nat
        }) + count_starting_with(lines(t.skip(k + 1)), mark),
{
    lemma_first_break(t, k);
    let first = without_cr(t.take(k));
    let rest = lines(t.skip(k + 1));
    assert(lines(t).drop_first() == rest);
    assert(starts_with(first, mark) == (k > 0 && t[0] == mark)) by {
        if k > 0 {
            assert(t.take(k)[0] == t[0]);
        }
    }
}

/// A text without a line feed that is not empty is one line.
proof fn lemma_lines_without_break(t: Seq<char>, mark: char)
    requires
        t.len() > 0,
        forall|i: int| 0 <= i < t.len() ==> t[i] != '\n',
    ensures
        lines(t) == seq![t],
        count_starting_with(lines(t), mark) == (if t[0] == mark {
            1nat
        } else {
            0nat
        }),
{
    lemma_first_break(t, t.len() as int);
    let rest = lines(t).drop_first();
    assert(rest.len() == 0);
    assert(count_starting_with(rest, mark) == 0);
}

/// A listing has as many lines as it lists items, and its lines are the
/// items themselves where none of them ends in a carriage return.
pub proof fn lemma_lines_of_listing(items: Seq<Seq<char>>)
    requires
        forall|i: int| 0 <= i < items.len() ==> on_one_line(#[trigger] items[i]),
    ensures
        lines(listing(items)).len() == items.len(),
        (forall|i: int| 0 <= i < items.len() ==> without_cr(#[trigger] items[i]) == items[i])
            ==> lines(listing(items)) == items,
    decreases items.len(),
{
    if items.len() > 0 {
        let t = listing(items);
        let k = items[0].len() as int;
        let rest = items.drop_first();
        assert(on_one_line(items[0]));
        assert(forall|i: int| 0 <= i < rest.len() ==> rest[i] == items[i + 1]);
        assert(t.take(k) == items[0]);
        assert(t.skip(k + 1) == listing(rest));
        lemma_lines_after_break(t, k, '>');
        lemma_lines_of_listing(rest);
        if forall|i: int| 0 <= i < items.len() ==> without_cr(#[trigger] items[i]) == items[i] {
            assert(lines(t) == items);
        }
    }
}

/// A listing of at least one item is the listing of all items but the last,
/// then the last item and a line feed.
pub proof fn lemma_listing_end(items: Seq<Seq<char>>)
    requires
        items.len() > 0,
    ensures
        listing(items) == listing(items.drop_last()) + items.last() + seq!['\n'],
    decreases items.len(),
{
    let rest = items.drop_first();
    if rest.len() == 0 {
        assert(listing(rest).len() == 0);
        assert(listing(items.drop_last()).len() == 0);
        assert(listing(items) == listing(items.drop_last()) + items.last() + seq!['\n']);
    } else {
        lemma_listing_end(rest);
        let front = items.drop_last();
        assert(front.drop_first() == rest.drop_last());
        assert(front[0] == items[0]);
        assert(rest.last() == items.last());
        assert(listing(items) == listing(front) + items.last() + seq!['\n']);
    }
}

/// The line feed that ends the last line of a text ends no line of its own:
/// without it the text has as many lines, provided that its last line is
/// not empty.
pub proof fn lemma_lines_without_final_break(s: Seq<char>)
    requires
        s.len() >= 2,
        s.last() == '\n',
        s[s.len() - 2] != '\n',
    ensures
        lines(s.drop_last()).len() == lines(s).len(),
    decreases s.len(),
{
    let k = first_break(s) as int;
    lemma_first_break_found(s);
    let short = s.drop_last();
    if k == s.len() - 1 {
        lemma_lines_after_break(s, k, '>');
        assert(s.skip(k + 1).len() == 0);
        assert(forall|i: int| 0 <= i < short.len() ==> short[i] == s[i]);
        lemma_lines_without_break(short, '>');
    } else {
        let tail = s.skip(k + 1);
        assert(forall|i: int| 0 <= i < short.len() ==> short[i] == s[i]);
        assert(short.skip(k + 1) == tail.drop_last());
        lemma_lines_after_break(s, k, '>');
        lemma_lines_after_break(short, k, '>');
        lemma_lines_without_final_break(tail);
    }
}

/// Where the first line feed of a text stands.
proof fn lemma_first_break_found(t: Seq<char>)
    ensures
        0 <= first_break(t) <= t.len(),
        forall|i: int| 0 <= i < first_break(t) ==> t[i] != '\n',
        first_break(t) < t.len() ==> t[first_break(t) as int] == '\n',
    decreases t.len(),
{
    if t.len() > 0 && t[0] != '\n' {
        let rest = t.drop_first();
        lemma_first_break_found(rest);
        assert forall|i: int| 0 <= i < first_break(t) implies t[i] != '\n' by {
            if i > 0 {
                assert(t[i] == rest[i - 1]);
            }
        }
    }
}

/// What one pass over a text counts.
struct Tally {
    /// The lines.
    lines: usize,
    /// The lines that begin with `>`.
    right: usize,
    /// The lines that begin with `<`.
    left: usize,
}

/// Counts the lines of `text`, and those among them that begin with `>` and
/// with `<`, in one pass.
fn tally(text: &str) -> (t: Tally)
    ensures
        t.lines == lines(text@).len(),
        t.right == count_starting_with(lines(text@), '>'),
        t.left == count_starting_with(lines(text@), '<'),
{
    let chars = chars_of(text);
    let n: usize = chars.len();
    let mut total: usize = 0;
    let mut right: usize = 0;
    let mut left: usize = 0;
    let mut fresh: bool = true;
    let mut i: usize = 0;
    let ghost s = chars@;
    let ghost mut j: int = 0;
    assert(s.skip(0) == s);
    while i < n
        invariant
            s == chars@,
            n == s.len(),
            0 <= j <= i <= n,
            fresh == (i == j),
            forall|k: int| j <= k < i ==> s[k] != '\n',
            total <= i,
            right <= i,
            left <= i,
            total + lines(s.skip(j)).len() == lines(s).len() + (if fresh {
                0nat
            } else {
                1nat
            }),
            right + count_starting_with(lines(s.skip(j)), '>') == count_starting_with(
                lines(s),
                '>',
            ) + (if !fresh && s[j] == '>' {
                1nat
            } else {
                0nat
            }),
            left + count_starting_with(lines(s.skip(j)), '<') == count_starting_with(
                lines(s),
                '<',
            ) + (if !fresh && s[j] == '<' {
                1nat
            } else {
                0nat
            }),
        decreases n - i,
    {
        let c = chars[i];
        if fresh {
            total += 1;
            if c == '>' {
                right += 1;
            } else if c == '<' {
                left += 1;
            }
            fresh = false;
        }
        if c == '\n' {
            proof {
                let t = s.skip(j);
                assert(forall|k: int| 0 <= k < i - j ==> t[k] == s[j + k]);
                assert(t.skip(i - j + 1) == s.skip(i + 1));
                lemma_lines_after_break(t, i - j, '>');
                lemma_lines_after_break(t, i - j, '<');
                j = i + 1;
            }
            fresh = true;
        }
        i += 1;
    }
    proof {
        if !fresh {
            let t = s.skip(j);
            lemma_lines_without_break(t, '>');
            lemma_lines_without_break(t, '<');
        }
    }
    Tally { lines: total, right, left }
}

/// The number of lines of `text`.
pub fn line_count(text: &str) -> (n: usize)
    ensures
        n == lines(text@).len(),
{
    tally(text).lines
}

/// The number of lines of `text` that begin with `>`, and the number of
/// those that begin with `<`.
pub fn marked_lines(text: &str) -> (counts: (usize, usize))
    ensures
        counts.0 == count_starting_with(lines(text@), '>'),
        counts.1 == count_starting_with(lines(text@), '<'),
{
    let t = tally(text);
    (t.right, t.left)
}

} // verus!
