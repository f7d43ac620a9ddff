//! File names and extensions of paths written with `/` between their
//! components.

use crate::chars::{chars_of, string_of};
use vstd::prelude::*;

verus! {

/// The place of the last `c` in `s`, or -1 when `s` holds none.
pub open spec fn last_index_of(s: Seq<char>, c: char) -> int
    decreases s.len(),
{
    if s.len() == 0 {
        -1
    } else if s.last() == c {
        s.len() - 1
    } else {
        last_index_of(s.drop_last(), c)
    }
}

/// The last component of a path: what follows its last `/`.
pub open spec fn file_name_of(path: Seq<char>) -> Seq<char> {
    path.subrange(last_index_of(path, '/') + 1, path.len() as int)
}

/// The extension of a file name: what follows its last `.`. A name
/// without a `.`, a name whose only `.` is its first character, and the
/// name `..` have none.
pub open spec fn name_extension(name: Seq<char>) -> Option<Seq<char>> {
    let dot = last_index_of(name, '.');
    if dot <= 0 || name == seq!['.', '.'] {
        None
    } else {
        Some(name.subrange(dot + 1, name.len() as int))
    }
}

/// The extension of a path: that of its last component.
pub open spec fn extension_of(path: Seq<char>) -> Option<Seq<char>> {
    name_extension(file_name_of(path))
}

/// The last `c` in `s` is within `s`, is a `c`, and no `c` follows it.
pub proof fn lemma_last_index_of(s: Seq<char>, c: char)
    ensures
        -1 <= last_index_of(s, c) < s.len(),
        last_index_of(s, c) >= 0 ==> s[last_index_of(s, c)] == c,
        forall|k: int| last_index_of(s, c) < k < s.len() ==> s[k] != c,
    decreases s.len(),
{
    if s.len() > 0 && s.last() != c {
        let t = s.drop_last();
        lemma_last_index_of(t, c);
        assert forall|k: int| last_index_of(s, c) < k < s.len() implies s[k] != c by {
            if k < t.len() {
                assert(s[k] == t[k]);
            }
        }
    }
}

/// A place after which no `c` follows, and which holds a `c` or is -1,
/// is the place of the last `c`.
pub proof fn lemma_last_index_at(s: Seq<char>, c: char, at: int)
    requires
        -1 <= at < s.len(),
        at >= 0 ==> s[at] == c,
        forall|k: int| at < k < s.len() ==> s[k] != c,
    ensures
        last_index_of(s, c) == at,
    decreases s.len(),
{
    if s.len() > 0 && s.last() != c {
        let t = s.drop_last();
        assert forall|k: int| at < k < t.len() implies t[k] != c by {
            assert(t[k] == s[k]);
        }
        lemma_last_index_at(t, c, at);
    }
}

/// Finds the last `c` in `text[from..to]`: its place counted from
/// `from`, or `None` when there is none.
fn find_last(text: &Vec<char>, from: usize, to: usize, c: char) -> (found: Option<usize>)
    requires
        from <= to <= text.len(),
    ensures
        match found {
            Some(at) => at < to - from && at as int == last_index_of(
                text@.subrange(from as int, to as int),
                c,
            ),
            None => last_index_of(text@.subrange(from as int, to as int), c) == -1,
        },
{
    let ghost s = text@.subrange(from as int, to as int);
    let mut i: usize = to;
    while i > from
        invariant
            from <= i <= to <= text.len(),
            s == text@.subrange(from as int, to as int),
            forall|k: int| i - from <= k < s.len() ==> s[k] != c,
        decreases i,
    {
        i -= 1;
        if text[i] == c {
            proof {
                assert(s[i - from] == text@[i as int]);
                lemma_last_index_at(s, c, i - from);
            }
            return Some(i - from);
        }
        assert(s[i - from] == text@[i as int]);
    }
    proof {
        lemma_last_index_at(s, c, -1);
    }
    None
}

/// The last component of `path`.
pub fn file_name(path: &str) -> (name: String)
    ensures
        name@ == file_name_of(path@),
{
    let text = chars_of(path);
    let n = text.len();
    let start: usize = match find_last(&text, 0, n, '/') {
        Some(at) => at + 1,
        None => 0,
    };
    proof {
        assert(text@.subrange(0, n as int) =~= text@);
    }
    string_of(&text, start, n)
}

/// The extension of `path`, if it has one.
pub fn extension(path: &str) -> (ext: Option<String>)
    ensures
        match ext {
            Some(e) => extension_of(path@) == Some(e@),
            None => extension_of(path@) is None,
        },
{
    let text = chars_of(path);
    let n = text.len();
    let start: usize = match find_last(&text, 0, n, '/') {
        Some(at) => at + 1,
        None => 0,
    };
    proof {
        assert(text@.subrange(0, n as int) =~= text@);
        lemma_last_index_of(text@, '/');
    }
    let ghost name = text@.subrange(start as int, n as int);
    assert(name == file_name_of(path@));
    match find_last(&text, start, n, '.') {
        None => None,
        Some(dot) => {
            if dot == 0 {
                return None;
            }
            if n - start == 2 && text[start] == '.' && text[start + 1] == '.' {
                assert(name =~= seq!['.', '.']);
                return None;
            }
            proof {
                if name == seq!['.', '.'] {
                    assert(name.len() == 2);
                    assert(name[0] == '.' && name[1] == '.');
                    assert(name[0] == text@[start as int]);
                    assert(name[1] == text@[start + 1]);
                }
                assert(name.subrange(dot + 1, name.len() as int) =~= text@.subrange(
                    start + dot + 1,
                    n as int,
                ));
            }
            Some(string_of(&text, start + dot + 1, n))
        },
    }
}

/// Whether the extension of `path` is exactly `wanted`.
pub fn has_extension(path: &str, wanted: &str) -> (r: bool)
    ensures
        r == (extension_of(path@) == Some(wanted@)),
{
    match extension(path) {
        None => false,
        Some(e) => {
            let w = wanted.to_owned();
            e == w
        },
    }
}

} // verus!
