//! Physical lines of a text. A line ends at a line feed, or at the end
//! of the text; a carriage return directly before the line feed belongs
//! to the line ending.

use crate::chars::slice_of;
use vstd::prelude::*;

verus! {

/// The place of the first line feed in `s`, or the length of `s` when it
/// holds none.
pub open spec fn first_newline(s: Seq<char>) -> int
    decreases s.len(),
{
    if s.len() == 0 || s[0] == '\n' {
        0
    } else {
        1 + first_newline(s.drop_first())
    }
}

/// `line` without a carriage return at its end.
pub open spec fn strip_cr(line: Seq<char>) -> Seq<char> {
    if line.len() > 0 && line.last() == '\r' {
        line.drop_last()
    } else {
        line
    }
}

/// The lines of `s`, each without its line ending. A text that ends in
/// a line ending has no empty line after it, and the empty text has no
/// line. A last line that no line feed ends keeps a carriage return at
/// its end.
pub open spec fn lines_of(s: Seq<char>) -> Seq<Seq<char>>
    decreases s.len(),
{
    if s.len() == 0 {
        Seq::empty()
    } else {
        let n = first_newline(s);
        if n < 0 || n >= s.len() {
            seq![s]
        } else {
            seq![strip_cr(s.subrange(0, n))] + lines_of(s.subrange(n + 1, s.len() as int))
        }
    }
}

/// A place `n` with a line feed, or the end, before which `s` holds no
/// line feed, is the place of the first line feed.
pub proof fn lemma_first_newline_at(s: Seq<char>, n: int)
    requires
        0 <= n <= s.len(),
        forall|k: int| 0 <= k < n ==> s[k] != '\n',
        n < s.len() ==> s[n] == '\n',
    ensures
        first_newline(s) == n,
    decreases n,
{
    if n > 0 {
        let t = s.drop_first();
        assert forall|k: int| 0 <= k < n - 1 implies t[k] != '\n' by {
            assert(t[k] == s[k + 1]);
        }
        lemma_first_newline_at(t, n - 1);
    }
}

/// The first line feed lies within the text or at its end, and nothing
/// before it is a line feed.
pub proof fn lemma_first_newline_is_first(s: Seq<char>)
    ensures
        0 <= first_newline(s) <= s.len(),
        first_newline(s) < s.len() ==> s[first_newline(s)] == '\n',
        forall|k: int| 0 <= k < first_newline(s) ==> s[k] != '\n',
    decreases s.len(),
{
    if !(s.len() == 0 || s[0] == '\n') {
        let t = s.drop_first();
        lemma_first_newline_is_first(t);
        assert forall|k: int| 0 <= k < first_newline(s) implies s[k] != '\n' by {
            if k > 0 {
                assert(s[k] == t[k - 1]);
            }
        }
    }
}

/// Finds the lines of a text: for each line of `lines_of`, in order, the
/// places in `text` where it begins and ends.
pub fn line_ranges(text: &Vec<char>) -> (ranges: Vec<(usize, usize)>)
    ensures
        ranges@.len() == lines_of(text@).len(),
        forall|k: int|
            0 <= k < ranges@.len() ==> {
                &&& (#[trigger] ranges@[k]).0 <= ranges@[k].1 <= text@.len()
                &&& slice_of(text@, ranges@[k]) == lines_of(text@)[k]
            },
{
    let n = text.len();
    let mut ranges: Vec<(usize, usize)> = Vec::new();
    let mut start: usize = 0;
    let mut i: usize = 0;
    proof {
        assert(text@.subrange(0, n as int) =~= text@);
        assert(ranges@.map_values(|r: (usize, usize)| slice_of(text@, r)) + lines_of(text@)
            =~= lines_of(text@));
    }
    while i < n
        invariant
            n == text@.len(),
            start <= i <= n,
            forall|k: int| start <= k < i ==> text@[k] != '\n',
            lines_of(text@) == ranges@.map_values(|r: (usize, usize)| slice_of(text@, r))
                + lines_of(text@.subrange(start as int, n as int)),
            forall|k: int|
                0 <= k < ranges@.len() ==> (#[trigger] ranges@[k]).0 <= ranges@[k].1 <= n,
        decreases n - i,
    {
        if text[i] == '\n' {
            let end: usize = if i > start && text[i - 1] == '\r' {
                i - 1
            } else {
                i
            };
            proof {
                let rest = text@.subrange(start as int, n as int);
                assert forall|k: int| 0 <= k < i - start implies rest[k] != '\n' by {
                    assert(rest[k] == text@[start + k]);
                }
                lemma_first_newline_at(rest, i - start);
                let raw = rest.subrange(0, i - start);
                assert(raw =~= text@.subrange(start as int, i as int));
                assert(strip_cr(raw) =~= text@.subrange(start as int, end as int)) by {
                    if i > start {
                        assert(raw.last() == text@[i - 1]);
                    }
                }
                assert(rest.subrange(i - start + 1, rest.len() as int) =~= text@.subrange(
                    i + 1,
                    n as int,
                ));
                let f = |r: (usize, usize)| slice_of(text@, r);
                assert(ranges@.push((start, end)).map_values(f) =~= ranges@.map_values(f).push(
                    text@.subrange(start as int, end as int),
                ));
                assert(lines_of(rest) == seq![text@.subrange(start as int, end as int)] + lines_of(
                    text@.subrange(i + 1, n as int),
                ));
                assert(lines_of(text@) =~= ranges@.push((start, end)).map_values(f) + lines_of(
                    text@.subrange(i + 1, n as int),
                ));
            }
            ranges.push((start, end));
            start = i + 1;
        }
        i += 1;
    }
    proof {
        let rest = text@.subrange(start as int, n as int);
        let f = |r: (usize, usize)| slice_of(text@, r);
        if start < n {
            assert forall|k: int| 0 <= k < n - start implies rest[k] != '\n' by {
                assert(rest[k] == text@[start + k]);
            }
            lemma_first_newline_at(rest, n - start);
            assert(lines_of(rest) == seq![rest]);
            assert(ranges@.push((start, n)).map_values(f) =~= ranges@.map_values(f).push(rest));
            assert(lines_of(text@) =~= ranges@.push((start, n)).map_values(f));
        } else {
            assert(lines_of(rest) =~= Seq::<Seq<char>>::empty());
            assert(lines_of(text@) =~= ranges@.map_values(f));
        }
    }
    if start < n {
        ranges.push((start, n));
    }
    proof {
        let f = |r: (usize, usize)| slice_of(text@, r);
        assert(lines_of(text@) == ranges@.map_values(f));
        assert forall|k: int| 0 <= k < ranges@.len() implies slice_of(text@, #[trigger] ranges@[k])
            == lines_of(text@)[k] by {
            assert(ranges@.map_values(f)[k] == f(ranges@[k]));
        }
    }
    ranges
}

} // verus!
