//! Directory entries and the order in which a listing is shown:
//! directories first, then files, each group by ascending path.

use crate::chars::{
    lemma_lex_le_antisymmetric, lemma_lex_le_reflexive, lemma_lex_le_total,
    lemma_lex_le_transitive, lex_le, str_le,
};
use crate::paths::{file_name, file_name_of};
use vstd::string::StringExecFns;
use vstd::prelude::*;

verus! {

/// One item of a directory listing.
#[derive(Clone, Debug, PartialEq, Eq)]
pub struct Entry {
    /// The item's path.
    pub path: String,
    /// Whether the item is a directory.
    pub is_dir: bool,
}

/// `a` may stand before `b` in a listing: a directory before a file, and
/// within one kind the lesser path first.
pub open spec fn entry_le(a: Entry, b: Entry) -> bool {
    if a.is_dir != b.is_dir {
        a.is_dir
    } else {
        lex_le(a.path@, b.path@)
    }
}

/// The listing shows every directory before every file, and within each
/// of the two groups the paths ascend.
pub open spec fn listing_sorted(s: Seq<Entry>) -> bool {
    forall|i: int, j: int|
        0 <= i < j < s.len() ==> {
            &&& (#[trigger] s[j]).is_dir ==> (#[trigger] s[i]).is_dir
            &&& s[i].is_dir == s[j].is_dir ==> lex_le(s[i].path@, s[j].path@)
        }
}

/// The name under which an entry is listed: the last component of its
/// path, `..` where the path has none, and `/` after the name of a
/// directory.
pub open spec fn display_name_of(e: Entry) -> Seq<char> {
    let name = file_name_of(e.path@);
    let shown = if name.len() == 0 {
        seq!['.', '.']
    } else {
        name
    };
    if e.is_dir {
        shown.push('/')
    } else {
        shown
    }
}

/// What an entry is ordered by: its kind and the characters of its
/// path.
pub struct EntryKey {
    pub is_dir: bool,
    pub path: Seq<char>,
}

/// The key of an entry.
pub open spec fn key_of(e: Entry) -> EntryKey {
    EntryKey { is_dir: e.is_dir, path: e.path@ }
}

/// The keys of a listing's entries, in the listing's order.
pub open spec fn keys_of(s: Seq<Entry>) -> Seq<EntryKey> {
    s.map_values(|e: Entry| key_of(e))
}

/// Two entries of which each may stand before the other have the same
/// key.
pub proof fn lemma_entry_le_antisymmetric(a: Entry, b: Entry)
    requires
        entry_le(a, b),
        entry_le(b, a),
    ensures
        key_of(a) == key_of(b),
{
    lemma_lex_le_antisymmetric(a.path@, b.path@);
}

/// The order passes along a chain of three entries.
pub proof fn lemma_entry_le_transitive(a: Entry, b: Entry, c: Entry)
    requires
        entry_le(a, b),
        entry_le(b, c),
    ensures
        entry_le(a, c),
{
    if a.is_dir == b.is_dir && b.is_dir == c.is_dir {
        lemma_lex_le_transitive(a.path@, b.path@, c.path@);
    }
}

/// In a sorted listing every entry may stand before each one after it.
pub proof fn lemma_sorted_pairs(s: Seq<Entry>, i: int, j: int)
    requires
        listing_sorted(s),
        0 <= i <= j < s.len(),
    ensures
        entry_le(s[i], s[j]),
{
    if i == j {
        lemma_lex_le_reflexive(s[i].path@);
    }
}

/// A sorted listing without one of its entries is sorted.
pub proof fn lemma_remove_keeps_sorted(s: Seq<Entry>, at: int)
    requires
        listing_sorted(s),
        0 <= at < s.len(),
    ensures
        listing_sorted(s.remove(at)),
{
    let t = s.remove(at);
    assert forall|i: int, j: int| 0 <= i < j < t.len() implies {
        &&& (#[trigger] t[j]).is_dir ==> (#[trigger] t[i]).is_dir
        &&& t[i].is_dir == t[j].is_dir ==> lex_le(t[i].path@, t[j].path@)
    } by {
        let i0 = if i < at {
            i
        } else {
            i + 1
        };
        let j0 = if j < at {
            j
        } else {
            j + 1
        };
        assert(t[i] == s[i0] && t[j] == s[j0]);
        lemma_sorted_pairs(s, i0, j0);
    }
}

/// The display order is fixed by what is listed: two sorted listings
/// of the same entries show the same kinds and paths at every place.
pub proof fn lemma_sorted_listing_is_unique(a: Seq<Entry>, b: Seq<Entry>)
    requires
        listing_sorted(a),
        listing_sorted(b),
        a.to_multiset() == b.to_multiset(),
    ensures
        keys_of(a) == keys_of(b),
    decreases a.len(),
{
    vstd::seq_lib::to_multiset_len(a);
    vstd::seq_lib::to_multiset_len(b);
    if a.len() == 0 {
        assert(keys_of(a) =~= keys_of(b));
    } else {
        let x = a[0];
        assert(a.contains(x));
        vstd::seq_lib::to_multiset_contains(a, x);
        vstd::seq_lib::to_multiset_contains(b, x);
        let j = choose|j: int| 0 <= j < b.len() && b[j] == x;
        let a1 = a.remove(0);
        let b1 = b.remove(j);
        vstd::seq_lib::to_multiset_remove(a, 0);
        vstd::seq_lib::to_multiset_remove(b, j);
        lemma_remove_keeps_sorted(a, 0);
        lemma_remove_keeps_sorted(b, j);
        lemma_sorted_listing_is_unique(a1, b1);
        assert forall|i: int| 0 <= i < j implies key_of(#[trigger] b[i]) == key_of(x) by {
            let y = b[i];
            assert(b.contains(y));
            vstd::seq_lib::to_multiset_contains(b, y);
            vstd::seq_lib::to_multiset_contains(a, y);
            let m = choose|m: int| 0 <= m < a.len() && a[m] == y;
            lemma_sorted_pairs(a, 0, m);
            lemma_sorted_pairs(b, i, j);
            lemma_entry_le_antisymmetric(x, y);
        }
        assert forall|i: int| 0 <= i < a.len() implies keys_of(a)[i] == keys_of(b)[i] by {
            if i == 0 {
                if j > 0 {
                    assert(key_of(b[0]) == key_of(x));
                }
            } else {
                assert(a[i] == a1[i - 1]);
                assert(keys_of(a1)[i - 1] == keys_of(b1)[i - 1]);
                if i - 1 < j {
                    assert(b1[i - 1] == b[i - 1]);
                    assert(key_of(b[i - 1]) == key_of(x));
                    if i < j {
                        assert(key_of(b[i]) == key_of(x));
                    }
                } else {
                    assert(b1[i - 1] == b[i]);
                }
            }
        }
        assert(keys_of(a) =~= keys_of(b));
    }
}

/// Of two entries one may stand before the other.
pub proof fn lemma_entry_le_total(a: Entry, b: Entry)
    ensures
        entry_le(a, b) || entry_le(b, a),
{
    lemma_lex_le_total(a.path@, b.path@);
}

impl Entry {
    /// An entry for `path`.
    pub fn new(path: String, is_dir: bool) -> (e: Entry)
        ensures
            e.path == path,
            e.is_dir == is_dir,
    {
        Entry { path, is_dir }
    }

    /// The name under which the entry is listed.
    pub fn display_name(&self) -> (name: String)
        ensures
            name@ == display_name_of(*self),
    {
        let mut name = file_name(self.path.as_str());
        if name.as_str().is_empty() {
            name.push('.');
            name.push('.');
            assert(name@ =~= seq!['.', '.']);
        }
        if self.is_dir {
            name.push('/');
        }
        name
    }

    /// Whether `self` may stand before `other` in a listing.
    pub fn comes_before(&self, other: &Entry) -> (r: bool)
        ensures
            r == entry_le(*self, *other),
    {
        if self.is_dir != other.is_dir {
            self.is_dir
        } else {
            str_le(self.path.as_str(), other.path.as_str())
        }
    }
}

/// Finds by halving where `e` goes into a sorted listing: the place
/// behind every entry that may stand before `e`.
fn insertion_place(sorted: &Vec<Entry>, e: &Entry) -> (at: usize)
    requires
        listing_sorted(sorted@),
    ensures
        at <= sorted.len(),
        forall|k: int| 0 <= k < at ==> entry_le(#[trigger] sorted@[k], *e),
        forall|k: int| at <= k < sorted.len() ==> !entry_le(#[trigger] sorted@[k], *e),
{
    let mut lo: usize = 0;
    let mut hi: usize = sorted.len();
    while lo < hi
        invariant
            lo <= hi <= sorted.len(),
            listing_sorted(sorted@),
            forall|k: int| 0 <= k < lo ==> entry_le(#[trigger] sorted@[k], *e),
            forall|k: int| hi <= k < sorted.len() ==> !entry_le(#[trigger] sorted@[k], *e),
        decreases hi - lo,
    {
        let mid = lo + (hi - lo) / 2;
        if sorted[mid].comes_before(e) {
            assert forall|k: int| 0 <= k < mid + 1 implies entry_le(#[trigger] sorted@[k], *e) by {
                lemma_sorted_pairs(sorted@, k, mid as int);
                lemma_entry_le_transitive(sorted@[k], sorted@[mid as int], *e);
            }
            lo = mid + 1;
        } else {
            assert forall|k: int| mid <= k < sorted.len() implies !entry_le(
                #[trigger] sorted@[k],
                *e,
            ) by {
                if entry_le(sorted@[k], *e) {
                    lemma_sorted_pairs(sorted@, mid as int, k);
                    lemma_entry_le_transitive(sorted@[mid as int], sorted@[k], *e);
                }
            }
            hi = mid;
        }
    }
    lo
}

/// Puts a listing in display order. The result holds the same entries,
/// each as often as the listing did.
pub fn sort_entries(listing: Vec<Entry>) -> (sorted: Vec<Entry>)
    ensures
        listing_sorted(sorted@),
        sorted@.to_multiset() == listing@.to_multiset(),
{
    broadcast use vstd::seq_lib::group_to_multiset_ensures;

    let mut rest = listing;
    let mut sorted: Vec<Entry> = Vec::new();
    loop
        invariant
            listing_sorted(sorted@),
            sorted@.to_multiset().add(rest@.to_multiset()) == listing@.to_multiset(),
        decreases rest.len(),
    {
        let ghost before = rest@;
        match rest.pop() {
            None => {
                assert(rest@ =~= Seq::<Entry>::empty());
                assert forall|x: Entry| rest@.to_multiset().count(x) == 0 by {
                    vstd::seq_lib::to_multiset_contains(rest@, x);
                }
                assert(rest@.to_multiset() =~= vstd::multiset::Multiset::empty());
                assert(sorted@.to_multiset() =~= listing@.to_multiset());
                return sorted;
            },
            Some(e) => {
                let at = insertion_place(&sorted, &e);
                proof {
                    let old_sorted = sorted@;
                    let new_sorted = old_sorted.insert(at as int, e);
                    assert(before.remove(before.len() - 1) =~= rest@);
                    assert(before[before.len() - 1] == e);
                    vstd::seq_lib::to_multiset_remove(before, before.len() - 1);
                    vstd::seq_lib::to_multiset_contains(before, e);
                    assert(before.to_multiset().count(e) > 0);
                    vstd::seq_lib::to_multiset_insert(old_sorted, at as int, e);
                    assert(new_sorted.to_multiset().add(rest@.to_multiset())
                        =~= old_sorted.to_multiset().add(before.to_multiset()));
                    if (at as int) < old_sorted.len() {
                        lemma_entry_le_total(old_sorted[at as int], e);
                    }
                    assert forall|i: int, j: int| 0 <= i < j < new_sorted.len() implies {
                        &&& (#[trigger] new_sorted[j]).is_dir ==> (#[trigger] new_sorted[i]).is_dir
                        &&& new_sorted[i].is_dir == new_sorted[j].is_dir ==> lex_le(
                            new_sorted[i].path@,
                            new_sorted[j].path@,
                        )
                    } by {
                        lemma_insert_keeps_order(old_sorted, at as int, e, i, j);
                    }
                }
                sorted.insert(at, e);
            },
        }
    }
}

/// After an entry is put at a place where all before it may stand before
/// it, and it may stand before the one that was there, any two places of
/// the new listing are in order.
proof fn lemma_insert_keeps_order(s: Seq<Entry>, at: int, e: Entry, i: int, j: int)
    requires
        listing_sorted(s),
        0 <= at <= s.len(),
        forall|k: int| 0 <= k < at ==> entry_le(#[trigger] s[k], e),
        at < s.len() ==> entry_le(e, s[at]),
        0 <= i < j < s.len() + 1,
    ensures
        entry_le(s.insert(at, e)[i], s.insert(at, e)[j]),
        ({
            let t = s.insert(at, e);
            &&& t[j].is_dir ==> t[i].is_dir
            &&& t[i].is_dir == t[j].is_dir ==> lex_le(t[i].path@, t[j].path@)
        }),
{
    let t = s.insert(at, e);
    if j < at {
        assert(t[i] == s[i] && t[j] == s[j]);
    } else if j == at {
        assert(t[i] == s[i] && t[j] == e);
    } else if i == at {
        assert(t[j] == s[j - 1]);
        if j - 1 > at {
            let x = s[at];
            let y = s[j - 1];
            assert(y.is_dir ==> x.is_dir);
            if e.is_dir == y.is_dir {
                assert(x.is_dir == e.is_dir);
                lemma_lex_le_transitive(e.path@, x.path@, y.path@);
            }
        }
    } else if i > at {
        assert(t[i] == s[i - 1] && t[j] == s[j - 1]);
    } else {
        assert(t[i] == s[i] && t[j] == s[j - 1]);
        if j - 1 > i {
        } else {
            assert(false);
        }
    }
}

} // verus!
