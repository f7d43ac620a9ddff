//! Strings as sequences of characters: reading a string's characters,
//! whitespace, and the lexicographic order on character sequences.

use vstd::prelude::*;
use vstd::std_specs::iter::IteratorSpec;

verus! {

/// `String::push` appends one character to the end of the string.
pub assume_specification[ String::push ](s: &mut String, ch: char)
    ensures
        final(s)@ == old(s)@.push(ch),
;

/// `String::pop` takes the last character off the string and returns
/// it; of an empty string it returns `None` and leaves the string empty.
pub assume_specification[ String::pop ](s: &mut String) -> (last: Option<char>)
    ensures
        old(s)@.len() == 0 ==> last is None && final(s)@ == old(s)@,
        old(s)@.len() > 0 ==> last == Some(old(s)@.last()) && final(s)@ == old(s)@.drop_last(),
;

/// The characters of `s`, in order.
pub fn chars_of(s: &str) -> (v: Vec<char>)
    ensures
        v@ == s@,
{
    broadcast use vstd::string::group_string_axioms;

    let mut it = s.chars();
    let mut v: Vec<char> = Vec::new();
    loop
        invariant
            it.obeys_prophetic_iter_laws(),
            it.decrease() is Some,
            v@ + it.remaining() == s@,
        decreases it.decrease()->0,
    {
        match it.next() {
            Some(c) => {
                assert(v@.push(c) + it.remaining() =~= s@);
                v.push(c);
            },
            None => {
                assert(v@ =~= s@);
                return v;
            },
        }
    }
}

/// The string that holds the characters `v[from..to]`.
pub fn string_of(v: &Vec<char>, from: usize, to: usize) -> (s: String)
    requires
        from <= to <= v.len(),
    ensures
        s@ == v@.subrange(from as int, to as int),
{
    let mut s = String::new();
    let mut i: usize = from;
    while i < to
        invariant
            from <= i <= to <= v.len(),
            s@ == v@.subrange(from as int, i as int),
        decreases to - i,
    {
        s.push(v[i]);
        i += 1;
        assert(s@ =~= v@.subrange(from as int, i as int));
    }
    s
}

/// The text `s[r.0..r.1]` for a pair of places `r`.
pub open spec fn slice_of(s: Seq<char>, r: (usize, usize)) -> Seq<char> {
    s.subrange(r.0 as int, r.1 as int)
}

/// Whether `c` has the Unicode property White_Space.
pub open spec fn is_white_space(c: char) -> bool {
    let n = c as int;
    ||| 0x09 <= n <= 0x0d
    ||| n == 0x20
    ||| n == 0x85
    ||| n == 0xa0
    ||| n == 0x1680
    ||| 0x2000 <= n <= 0x200a
    ||| n == 0x2028
    ||| n == 0x2029
    ||| n == 0x202f
    ||| n == 0x205f
    ||| n == 0x3000
}

/// Tests a character for the Unicode property White_Space.
pub fn is_whitespace(c: char) -> (r: bool)
    ensures
        r == is_white_space(c),
{
    let n: u32 = c as u32;
    (0x09 <= n && n <= 0x0d) || n == 0x20 || n == 0x85 || n == 0xa0 || n == 0x1680 || (0x2000 <= n
        && n <= 0x200a) || n == 0x2028 || n == 0x2029 || n == 0x202f || n == 0x205f || n == 0x3000
}

/// `a` comes before `b`, or equals it, in the lexicographic order by
/// character code.
pub open spec fn lex_le(a: Seq<char>, b: Seq<char>) -> bool
    decreases a.len(),
{
    if a.len() == 0 {
        true
    } else if b.len() == 0 {
        false
    } else if a[0] != b[0] {
        (a[0] as int) < (b[0] as int)
    } else {
        lex_le(a.drop_first(), b.drop_first())
    }
}

/// Whether the code of `x` is less than that of `y`.
pub fn char_lt(x: char, y: char) -> (r: bool)
    ensures
        r == ((x as int) < (y as int)),
{
    (x as u32) < (y as u32)
}

/// Compares two strings in the lexicographic order by character code.
pub fn str_le(a: &str, b: &str) -> (r: bool)
    ensures
        r == lex_le(a@, b@),
{
    broadcast use vstd::string::group_string_axioms;

    let mut ia = a.chars();
    let mut ib = b.chars();
    loop
        invariant
            ia.obeys_prophetic_iter_laws(),
            ib.obeys_prophetic_iter_laws(),
            ia.decrease() is Some,
            lex_le(a@, b@) == lex_le(ia.remaining(), ib.remaining()),
        decreases ia.decrease()->0,
    {
        match ia.next() {
            None => {
                return true;
            },
            Some(ca) => {
                match ib.next() {
                    None => {
                        return false;
                    },
                    Some(cb) => {
                        if ca != cb {
                            return char_lt(ca, cb);
                        }
                    },
                }
            },
        }
    }
}

/// The character of a decimal digit.
pub open spec fn digit_char(d: nat) -> char {
    if d == 0 {
        '0'
    } else if d == 1 {
        '1'
    } else if d == 2 {
        '2'
    } else if d == 3 {
        '3'
    } else if d == 4 {
        '4'
    } else if d == 5 {
        '5'
    } else if d == 6 {
        '6'
    } else if d == 7 {
        '7'
    } else if d == 8 {
        '8'
    } else {
        '9'
    }
}

/// The decimal numeral of `n`, without leading zeros.
pub open spec fn decimal_of(n: nat) -> Seq<char>
    decreases n,
{
    if n < 10 {
        seq![digit_char(n)]
    } else {
        decimal_of(n / 10).push(digit_char(n % 10))
    }
}

/// The character of the decimal digit `d`.
pub fn digit(d: usize) -> (c: char)
    requires
        d < 10,
    ensures
        c == digit_char(d as nat),
{
    if d == 0 {
        '0'
    } else if d == 1 {
        '1'
    } else if d == 2 {
        '2'
    } else if d == 3 {
        '3'
    } else if d == 4 {
        '4'
    } else if d == 5 {
        '5'
    } else if d == 6 {
        '6'
    } else if d == 7 {
        '7'
    } else if d == 8 {
        '8'
    } else {
        '9'
    }
}

/// Writes `n` as a decimal numeral.
pub fn decimal(n: usize) -> (s: String)
    ensures
        s@ == decimal_of(n as nat),
{
    let mut low: Vec<char> = Vec::new();
    let mut m: usize = n;
    while m >= 10
        invariant
            decimal_of(n as nat) == decimal_of(m as nat) + low@.reverse(),
        decreases m,
    {
        let ghost before = low@;
        low.push(digit(m % 10));
        proof {
            let d = digit_char((m % 10) as nat);
            assert(low@.reverse() =~= seq![d] + before.reverse());
            assert(decimal_of(m as nat) == decimal_of((m / 10) as nat).push(d));
            assert(decimal_of((m / 10) as nat).push(d) + before.reverse() =~= decimal_of(
                (m / 10) as nat,
            ) + low@.reverse());
        }
        m = m / 10;
    }
    let mut s = String::new();
    s.push(digit(m));
    let mut k: usize = low.len();
    while k > 0
        invariant
            k <= low.len(),
            s@ == decimal_of(m as nat) + low@.reverse().subrange(0, low.len() - k),
        decreases k,
    {
        k -= 1;
        s.push(low[k]);
        proof {
            let r = low@.reverse();
            assert(r[low.len() - 1 - k] == low@[k as int]);
            assert(r.subrange(0, low.len() - k) =~= r.subrange(0, low.len() - 1 - k).push(
                low@[k as int],
            ));
            assert(s@ =~= decimal_of(m as nat) + r.subrange(0, low.len() - k));
        }
    }
    proof {
        let r = low@.reverse();
        assert(r.subrange(0, low.len() as int) =~= r);
    }
    s
}

/// `a` is a beginning of `b`.
pub open spec fn is_prefix_of(a: Seq<char>, b: Seq<char>) -> bool {
    a.len() <= b.len() && a == b.subrange(0, a.len() as int)
}

/// `a` and `b` agree before the place `i` and differ at it.
pub open spec fn differ_first_at(a: Seq<char>, b: Seq<char>, i: int) -> bool {
    &&& 0 <= i < a.len()
    &&& i < b.len()
    &&& a.subrange(0, i) == b.subrange(0, i)
    &&& a[i] != b[i]
}

/// The order said without recursion: `a` is at or before `b` exactly
/// when `a` is a beginning of `b`, or `a` has the lesser character at
/// the first place where the two differ.
pub proof fn lemma_lex_le_by_first_difference(a: Seq<char>, b: Seq<char>)
    ensures
        lex_le(a, b) <==> is_prefix_of(a, b) || exists|i: int|
            differ_first_at(a, b, i) && (a[i] as int) < (b[i] as int),
    decreases a.len(),
{
    if a.len() == 0 {
        assert(a =~= b.subrange(0, 0));
    } else if b.len() == 0 {
    } else if a[0] != b[0] {
        assert(!is_prefix_of(a, b)) by {
            if is_prefix_of(a, b) {
                assert(b.subrange(0, a.len() as int)[0] == b[0]);
            }
        }
        assert(differ_first_at(a, b, 0)) by {
            assert(a.subrange(0, 0) =~= b.subrange(0, 0));
        }
        assert forall|i: int| differ_first_at(a, b, i) implies i == 0 by {
            if i > 0 {
                assert(a.subrange(0, i)[0] == a[0]);
                assert(b.subrange(0, i)[0] == b[0]);
            }
        }
    } else {
        let a1 = a.drop_first();
        let b1 = b.drop_first();
        lemma_lex_le_by_first_difference(a1, b1);
        assert(is_prefix_of(a, b) <==> is_prefix_of(a1, b1)) by {
            if is_prefix_of(a, b) {
                assert(a1 =~= b1.subrange(0, a1.len() as int)) by {
                    assert forall|k: int| 0 <= k < a1.len() implies a1[k] == b1[k] by {
                        assert(a[k + 1] == b.subrange(0, a.len() as int)[k + 1]);
                    }
                }
            }
            if is_prefix_of(a1, b1) {
                assert(a =~= b.subrange(0, a.len() as int)) by {
                    assert forall|k: int| 0 <= k < a.len() implies a[k] == b[k] by {
                        if k > 0 {
                            assert(a1[k - 1] == b1.subrange(0, a1.len() as int)[k - 1]);
                        }
                    }
                }
            }
        }
        assert forall|i: int| differ_first_at(a1, b1, i) implies differ_first_at(a, b, i + 1) by {
            assert(a.subrange(0, i + 1) =~= b.subrange(0, i + 1)) by {
                assert forall|k: int| 0 <= k < i + 1 implies a[k] == b[k] by {
                    if k > 0 {
                        assert(a1.subrange(0, i)[k - 1] == b1.subrange(0, i)[k - 1]);
                    }
                }
            }
        }
        assert forall|i: int| differ_first_at(a, b, i) implies i > 0 && differ_first_at(
            a1,
            b1,
            i - 1,
        ) by {
            assert(a1.subrange(0, i - 1) =~= b1.subrange(0, i - 1)) by {
                assert forall|k: int| 0 <= k < i - 1 implies a1[k] == b1[k] by {
                    assert(a.subrange(0, i)[k + 1] == b.subrange(0, i)[k + 1]);
                }
            }
        }
        if exists|i: int| differ_first_at(a1, b1, i) && (a1[i] as int) < (b1[i] as int) {
            let i = choose|i: int| differ_first_at(a1, b1, i) && (a1[i] as int) < (b1[i] as int);
            assert(differ_first_at(a, b, i + 1) && (a[i + 1] as int) < (b[i + 1] as int));
        }
        if exists|i: int| differ_first_at(a, b, i) && (a[i] as int) < (b[i] as int) {
            let i = choose|i: int| differ_first_at(a, b, i) && (a[i] as int) < (b[i] as int);
            assert(differ_first_at(a1, b1, i - 1) && (a1[i - 1] as int) < (b1[i - 1] as int));
        }
    }
}

/// Every sequence is at or before itself.
pub proof fn lemma_lex_le_reflexive(a: Seq<char>)
    ensures
        lex_le(a, a),
    decreases a.len(),
{
    if a.len() > 0 {
        lemma_lex_le_reflexive(a.drop_first());
    }
}

/// Of two sequences one is at or before the other.
pub proof fn lemma_lex_le_total(a: Seq<char>, b: Seq<char>)
    ensures
        lex_le(a, b) || lex_le(b, a),
    decreases a.len(),
{
    if a.len() > 0 && b.len() > 0 {
        if a[0] == b[0] {
            lemma_lex_le_total(a.drop_first(), b.drop_first());
        } else {
            assert((a[0] as int) != (b[0] as int));
        }
    }
}

/// Two sequences that are each at or before the other are the same sequence.
pub proof fn lemma_lex_le_antisymmetric(a: Seq<char>, b: Seq<char>)
    requires
        lex_le(a, b),
        lex_le(b, a),
    ensures
        a == b,
    decreases a.len(),
{
    if a.len() == 0 || b.len() == 0 {
        assert(a =~= b);
    } else {
        assert(a[0] == b[0]);
        lemma_lex_le_antisymmetric(a.drop_first(), b.drop_first());
        assert(a =~= seq![a[0]] + a.drop_first());
        assert(b =~= seq![b[0]] + b.drop_first());
    }
}

/// The order passes along a chain of three sequences.
pub proof fn lemma_lex_le_transitive(a: Seq<char>, b: Seq<char>, c: Seq<char>)
    requires
        lex_le(a, b),
        lex_le(b, c),
    ensures
        lex_le(a, c),
    decreases a.len(),
{
    if a.len() > 0 && a[0] == b[0] && b[0] == c[0] {
        lemma_lex_le_transitive(a.drop_first(), b.drop_first(), c.drop_first());
    }
}

} // verus!
