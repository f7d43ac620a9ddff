//! The command line of the explorer: a line of text is trimmed, cut into
//! words at whitespace, and read as one of three commands.

use crate::chars::{chars_of, is_white_space, is_whitespace, slice_of, string_of};
use vstd::prelude::*;

verus! {

/// `s` without the whitespace at its start.
pub open spec fn trim_start_of(s: Seq<char>) -> Seq<char>
    decreases s.len(),
{
    if s.len() > 0 && is_white_space(s[0]) {
        trim_start_of(s.drop_first())
    } else {
        s
    }
}

/// `s` without the whitespace at its end.
pub open spec fn trim_end_of(s: Seq<char>) -> Seq<char>
    decreases s.len(),
{
    if s.len() > 0 && is_white_space(s.last()) {
        trim_end_of(s.drop_last())
    } else {
        s
    }
}

/// `s` without the whitespace at its start and at its end.
pub open spec fn trimmed(s: Seq<char>) -> Seq<char> {
    trim_end_of(trim_start_of(s))
}

/// The number of characters at the start of `s` before its first
/// whitespace character.
pub open spec fn word_len(s: Seq<char>) -> int
    decreases s.len(),
{
    if s.len() == 0 || is_white_space(s[0]) {
        0
    } else {
        1 + word_len(s.drop_first())
    }
}

/// The words of `s`: its longest runs of characters that are not
/// whitespace, from left to right.
pub open spec fn tokens_of(s: Seq<char>) -> Seq<Seq<char>>
    decreases s.len(),
{
    if s.len() == 0 {
        Seq::empty()
    } else if is_white_space(s[0]) {
        tokens_of(s.drop_first())
    } else {
        let n = word_len(s);
        if 0 < n <= s.len() {
            seq![s.subrange(0, n)] + tokens_of(s.subrange(n, s.len() as int))
        } else {
            Seq::empty()
        }
    }
}

/// A command, as typed.
#[derive(Clone, Debug, PartialEq, Eq)]
pub enum Command {
    /// `q`: leave the program.
    Quit,
    /// `cat <file>`: show the file as plain text.
    Cat(String),
    /// `ob <file>`: open the file in the browser.
    OpenBrowser(String),
    /// Nothing was typed.
    Empty,
    /// Anything else; holds the trimmed line.
    Unknown(String),
}

/// What a command is: its kind, and its argument as characters.
pub enum CommandModel {
    Quit,
    Cat(Seq<char>),
    OpenBrowser(Seq<char>),
    Empty,
    Unknown(Seq<char>),
}

impl View for Command {
    type V = CommandModel;

    open spec fn view(&self) -> CommandModel {
        match self {
            Command::Quit => CommandModel::Quit,
            Command::Cat(f) => CommandModel::Cat(f@),
            Command::OpenBrowser(f) => CommandModel::OpenBrowser(f@),
            Command::Empty => CommandModel::Empty,
            Command::Unknown(t) => CommandModel::Unknown(t@),
        }
    }
}

/// The command that a typed line stands for. A line is a command only
/// if it has exactly the words of that command: `q` alone, `cat` or
/// `ob` with one file name. A line without words is empty, and every
/// other line is unknown.
pub open spec fn command_of(line: Seq<char>) -> CommandModel {
    let words = tokens_of(line);
    if words.len() == 0 {
        CommandModel::Empty
    } else if words.len() == 1 && words[0] == seq!['q'] {
        CommandModel::Quit
    } else if words.len() == 2 && words[0] == seq!['c', 'a', 't'] {
        CommandModel::Cat(words[1])
    } else if words.len() == 2 && words[0] == seq!['o', 'b'] {
        CommandModel::OpenBrowser(words[1])
    } else {
        CommandModel::Unknown(trimmed(line))
    }
}

/// Whitespace up to a place that holds none is all that trimming the
/// start takes away.
pub proof fn lemma_trim_start_at(s: Seq<char>, at: int)
    requires
        0 <= at <= s.len(),
        forall|k: int| 0 <= k < at ==> is_white_space(#[trigger] s[k]),
        at < s.len() ==> !is_white_space(s[at]),
    ensures
        trim_start_of(s) == s.subrange(at, s.len() as int),
    decreases at,
{
    if at > 0 {
        let t = s.drop_first();
        assert(is_white_space(s[0]));
        assert forall|k: int| 0 <= k < at - 1 implies is_white_space(#[trigger] t[k]) by {
            assert(t[k] == s[k + 1]);
        }
        lemma_trim_start_at(t, at - 1);
        assert(t.subrange(at - 1, t.len() as int) =~= s.subrange(at, s.len() as int));
    } else {
        assert(s.subrange(0, s.len() as int) =~= s);
    }
}

/// Whitespace from a place on, after a character that is none, is all
/// that trimming the end takes away.
pub proof fn lemma_trim_end_at(s: Seq<char>, at: int)
    requires
        0 <= at <= s.len(),
        forall|k: int| at <= k < s.len() ==> is_white_space(#[trigger] s[k]),
        at > 0 ==> !is_white_space(s[at - 1]),
    ensures
        trim_end_of(s) == s.subrange(0, at),
    decreases s.len() - at,
{
    if at < s.len() {
        let t = s.drop_last();
        assert(is_white_space(s[s.len() - 1]));
        assert forall|k: int| at <= k < t.len() implies is_white_space(#[trigger] t[k]) by {
            assert(t[k] == s[k]);
        }
        lemma_trim_end_at(t, at);
        assert(t.subrange(0, at) =~= s.subrange(0, at));
    } else {
        assert(s.subrange(0, s.len() as int) =~= s);
    }
}

/// A run without whitespace that ends at whitespace, or at the end, is
/// the first word.
pub proof fn lemma_word_len_at(s: Seq<char>, n: int)
    requires
        0 <= n <= s.len(),
        forall|k: int| 0 <= k < n ==> !is_white_space(#[trigger] s[k]),
        n < s.len() ==> is_white_space(s[n]),
    ensures
        word_len(s) == n,
    decreases n,
{
    if n > 0 {
        let t = s.drop_first();
        assert(!is_white_space(s[0]));
        assert forall|k: int| 0 <= k < n - 1 implies !is_white_space(#[trigger] t[k]) by {
            assert(t[k] == s[k + 1]);
        }
        lemma_word_len_at(t, n - 1);
    }
}

/// The first word ends within the text, holds no whitespace, and is
/// followed by whitespace or by the end.
pub proof fn lemma_word_len_is_first(s: Seq<char>)
    ensures
        0 <= word_len(s) <= s.len(),
        forall|k: int| 0 <= k < word_len(s) ==> !is_white_space(#[trigger] s[k]),
        word_len(s) < s.len() ==> is_white_space(s[word_len(s)]),
        s.len() > 0 && !is_white_space(s[0]) ==> word_len(s) > 0,
    decreases s.len(),
{
    if !(s.len() == 0 || is_white_space(s[0])) {
        let t = s.drop_first();
        lemma_word_len_is_first(t);
        assert forall|k: int| 0 <= k < word_len(s) implies !is_white_space(#[trigger] s[k]) by {
            if k > 0 {
                assert(s[k] == t[k - 1]);
            }
        }
    }
}

/// Every word holds at least one character, and none of them is
/// whitespace.
pub proof fn lemma_words_hold_no_whitespace(s: Seq<char>)
    ensures
        forall|i: int| 0 <= i < tokens_of(s).len() ==> (#[trigger] tokens_of(s)[i]).len() > 0,
        forall|i: int, k: int|
            0 <= i < tokens_of(s).len() && 0 <= k < tokens_of(s)[i].len() ==> !is_white_space(
                #[trigger] tokens_of(s)[i][k],
            ),
    decreases s.len(),
{
    if s.len() == 0 {
        assert(tokens_of(s).len() == 0);
    } else if is_white_space(s[0]) {
        lemma_words_hold_no_whitespace(s.drop_first());
        assert(tokens_of(s) == tokens_of(s.drop_first()));
    } else {
        lemma_word_len_is_first(s);
        let n = word_len(s);
        let head = s.subrange(0, n);
        let rest = s.subrange(n, s.len() as int);
        lemma_words_hold_no_whitespace(rest);
        let all = tokens_of(s);
        assert(all == seq![head] + tokens_of(rest));
        assert forall|i: int| 0 <= i < all.len() implies (#[trigger] all[i]).len() > 0 by {
            if i > 0 {
                assert(all[i] == tokens_of(rest)[i - 1]);
            }
        }
        assert forall|i: int, k: int| 0 <= i < all.len() && 0 <= k < all[i].len() implies
            !is_white_space(#[trigger] all[i][k]) by {
            if i > 0 {
                assert(all[i] == tokens_of(rest)[i - 1]);
            } else {
                assert(all[0][k] == s[k]);
            }
        }
    }
}

/// Whitespace at the end of a text adds no word.
pub proof fn lemma_words_ignore_last_whitespace(s: Seq<char>)
    requires
        s.len() > 0,
        is_white_space(s.last()),
    ensures
        tokens_of(s.drop_last()) == tokens_of(s),
    decreases s.len(),
{
    let t = s.drop_last();
    if s.len() == 1 {
        assert(tokens_of(s.drop_first()) =~= Seq::<Seq<char>>::empty());
        assert(tokens_of(t) =~= Seq::<Seq<char>>::empty());
    } else if is_white_space(s[0]) {
        assert(t[0] == s[0]);
        assert(s.drop_first().last() == s.last());
        lemma_words_ignore_last_whitespace(s.drop_first());
        assert(s.drop_first().drop_last() =~= t.drop_first());
    } else {
        assert(t[0] == s[0]);
        lemma_word_len_is_first(s);
        let n = word_len(s);
        assert(n < s.len()) by {
            if n == s.len() {
                assert(!is_white_space(s[s.len() - 1]));
            }
        }
        assert forall|k: int| 0 <= k < n implies !is_white_space(#[trigger] t[k]) by {
            assert(t[k] == s[k]);
        }
        if n < t.len() {
            assert(t[n] == s[n]);
        }
        lemma_word_len_at(t, n);
        let rest = s.subrange(n, s.len() as int);
        assert(rest.last() == s.last());
        assert(rest.drop_last() =~= t.subrange(n, t.len() as int));
        assert(s.subrange(0, n) =~= t.subrange(0, n));
        lemma_words_ignore_last_whitespace(rest);
    }
}

/// Trimming the start of a text keeps its words.
pub proof fn lemma_trim_start_keeps_words(s: Seq<char>)
    ensures
        tokens_of(trim_start_of(s)) == tokens_of(s),
    decreases s.len(),
{
    if s.len() > 0 && is_white_space(s[0]) {
        lemma_trim_start_keeps_words(s.drop_first());
    }
}

/// Trimming the end of a text keeps its words.
pub proof fn lemma_trim_end_keeps_words(s: Seq<char>)
    ensures
        tokens_of(trim_end_of(s)) == tokens_of(s),
    decreases s.len(),
{
    if s.len() > 0 && is_white_space(s.last()) {
        lemma_trim_end_keeps_words(s.drop_last());
        lemma_words_ignore_last_whitespace(s);
    }
}

/// Whitespace around a line does not change its words: the words of
/// the trimmed line are those of the line.
pub proof fn lemma_trimmed_keeps_words(s: Seq<char>)
    ensures
        tokens_of(trimmed(s)) == tokens_of(s),
{
    lemma_trim_start_keeps_words(s);
    lemma_trim_end_keeps_words(trim_start_of(s));
}

/// Trimming the end leaves a text that does not end in whitespace, and
/// keeps what stands before a character that is no whitespace.
pub proof fn lemma_trim_end_shape(s: Seq<char>)
    ensures
        trim_end_of(s).len() <= s.len(),
        trim_end_of(s) == s.subrange(0, trim_end_of(s).len() as int),
        trim_end_of(s).len() > 0 ==> !is_white_space(trim_end_of(s).last()),
        forall|k: int| 0 <= k < s.len() && !is_white_space(#[trigger] s[k]) ==> k < trim_end_of(s).len(),
    decreases s.len(),
{
    if s.len() > 0 && is_white_space(s.last()) {
        let t = s.drop_last();
        lemma_trim_end_shape(t);
        assert(t.subrange(0, trim_end_of(t).len() as int) =~= s.subrange(
            0,
            trim_end_of(t).len() as int,
        ));
        assert forall|k: int| 0 <= k < s.len() && !is_white_space(#[trigger] s[k]) implies k
            < trim_end_of(s).len() by {
            assert(k < t.len());
            assert(t[k] == s[k]);
        }
    } else {
        assert(s.subrange(0, s.len() as int) =~= s);
    }
}

/// Trimming the start leaves a text that does not begin with
/// whitespace.
pub proof fn lemma_trim_start_shape(s: Seq<char>)
    ensures
        trim_start_of(s).len() <= s.len(),
        trim_start_of(s).len() > 0 ==> !is_white_space(trim_start_of(s)[0]),
    decreases s.len(),
{
    if s.len() > 0 && is_white_space(s[0]) {
        lemma_trim_start_shape(s.drop_first());
    }
}

/// A trimmed line neither begins nor ends with whitespace, and it is
/// empty exactly when the line has no word.
pub proof fn lemma_trimmed_shape(s: Seq<char>)
    ensures
        trimmed(s).len() > 0 ==> !is_white_space(trimmed(s)[0]) && !is_white_space(
            trimmed(s).last(),
        ),
        trimmed(s).len() == 0 <==> tokens_of(s).len() == 0,
{
    let t = trim_start_of(s);
    lemma_trim_start_shape(s);
    lemma_trim_end_shape(t);
    lemma_trimmed_keeps_words(s);
    let u = trimmed(s);
    if t.len() > 0 {
        assert(!is_white_space(t[0]));
        assert(u.len() > 0);
        assert(u[0] == t[0]);
        assert(tokens_of(u).len() > 0) by {
            lemma_word_len_is_first(u);
            assert(word_len(u) > 0);
        }
    } else {
        assert(u.len() == 0);
    }
}

/// The line of an unknown command is never empty, and a line without
/// words is never unknown.
pub proof fn lemma_unknown_command_is_named(line: Seq<char>)
    ensures
        command_of(line) matches CommandModel::Unknown(text) ==> text == trimmed(line) && text.len()
            > 0,
        tokens_of(line).len() == 0 <==> command_of(line) is Empty,
{
    lemma_trimmed_shape(line);
}

/// Finds where the trimmed text begins and ends.
pub fn trim_range(text: &Vec<char>) -> (r: (usize, usize))
    ensures
        r.0 <= r.1 <= text@.len(),
        slice_of(text@, r) == trimmed(text@),
{
    let n = text.len();
    let mut a: usize = 0;
    while a < n && is_whitespace(text[a])
        invariant
            a <= n,
            n == text@.len(),
            forall|k: int| 0 <= k < a ==> is_white_space(#[trigger] text@[k]),
        decreases n - a,
    {
        a += 1;
    }
    let mut b: usize = n;
    while b > a && is_whitespace(text[b - 1])
        invariant
            a <= b <= n,
            n == text@.len(),
            forall|k: int| b <= k < n ==> is_white_space(#[trigger] text@[k]),
        decreases b,
    {
        b -= 1;
    }
    proof {
        lemma_trim_start_at(text@, a as int);
        let t = text@.subrange(a as int, n as int);
        assert forall|k: int| b - a <= k < t.len() implies is_white_space(#[trigger] t[k]) by {
            assert(t[k] == text@[a + k]);
        }
        if b > a {
            assert(t[b - a - 1] == text@[b - 1]);
        }
        lemma_trim_end_at(t, b - a);
        assert(t.subrange(0, b - a) =~= text@.subrange(a as int, b as int));
    }
    (a, b)
}

/// Finds the words of a text: for each word of `tokens_of`, in order,
/// the places in `text` where it begins and ends.
pub fn token_ranges(text: &Vec<char>) -> (ranges: Vec<(usize, usize)>)
    ensures
        ranges@.len() == tokens_of(text@).len(),
        forall|k: int|
            0 <= k < ranges@.len() ==> {
                &&& (#[trigger] ranges@[k]).0 <= ranges@[k].1 <= text@.len()
                &&& slice_of(text@, ranges@[k]) == tokens_of(text@)[k]
            },
{
    let n = text.len();
    let mut ranges: Vec<(usize, usize)> = Vec::new();
    let mut i: usize = 0;
    proof {
        assert(text@.subrange(0, n as int) =~= text@);
        assert(ranges@.map_values(|r: (usize, usize)| slice_of(text@, r)) + tokens_of(text@)
            =~= tokens_of(text@));
    }
    while i < n
        invariant
            n == text@.len(),
            i <= n,
            tokens_of(text@) == ranges@.map_values(|r: (usize, usize)| slice_of(text@, r))
                + tokens_of(text@.subrange(i as int, n as int)),
            forall|k: int|
                0 <= k < ranges@.len() ==> (#[trigger] ranges@[k]).0 <= ranges@[k].1 <= n,
        decreases n - i,
    {
        let ghost rest = text@.subrange(i as int, n as int);
        assert(rest[0] == text@[i as int]);
        if is_whitespace(text[i]) {
            assert(rest.drop_first() =~= text@.subrange(i + 1, n as int));
            i += 1;
        } else {
            let start = i;
            let mut j: usize = i + 1;
            while j < n && !is_whitespace(text[j])
                invariant
                    start < j <= n,
                    n == text@.len(),
                    forall|k: int| start <= k < j ==> !is_white_space(#[trigger] text@[k]),
                decreases n - j,
            {
                j += 1;
            }
            proof {
                assert forall|k: int| 0 <= k < j - start implies !is_white_space(
                    #[trigger] rest[k],
                ) by {
                    assert(rest[k] == text@[start + k]);
                }
                if j < n {
                    assert(rest[j - start] == text@[j as int]);
                }
                lemma_word_len_at(rest, j - start);
                assert(rest.subrange(0, j - start) =~= text@.subrange(start as int, j as int));
                assert(rest.subrange(j - start, rest.len() as int) =~= text@.subrange(
                    j as int,
                    n as int,
                ));
                let f = |r: (usize, usize)| slice_of(text@, r);
                assert(ranges@.push((start, j)).map_values(f) =~= ranges@.map_values(f).push(
                    text@.subrange(start as int, j as int),
                ));
                assert(tokens_of(rest) == seq![text@.subrange(start as int, j as int)] + tokens_of(
                    text@.subrange(j as int, n as int),
                ));
                assert(tokens_of(text@) =~= ranges@.push((start, j)).map_values(f) + tokens_of(
                    text@.subrange(j as int, n as int),
                ));
            }
            ranges.push((start, j));
            i = j;
        }
    }
    proof {
        let f = |r: (usize, usize)| slice_of(text@, r);
        assert(tokens_of(text@.subrange(n as int, n as int)) =~= Seq::<Seq<char>>::empty());
        assert(tokens_of(text@) =~= ranges@.map_values(f));
        assert forall|k: int| 0 <= k < ranges@.len() implies slice_of(text@, #[trigger] ranges@[k])
            == tokens_of(text@)[k] by {
            assert(ranges@.map_values(f)[k] == f(ranges@[k]));
        }
    }
    ranges
}

/// Whether the characters `text[r.0..r.1]` are exactly `word`.
pub fn range_is(text: &Vec<char>, r: (usize, usize), word: &Vec<char>) -> (same: bool)
    requires
        r.0 <= r.1 <= text.len(),
    ensures
        same == (slice_of(text@, r) == word@),
{
    if r.1 - r.0 != word.len() {
        return false;
    }
    let mut k: usize = 0;
    while k < word.len()
        invariant
            r.0 <= r.1 <= text.len(),
            r.1 - r.0 == word.len(),
            k <= word.len(),
            forall|j: int| 0 <= j < k ==> text@[r.0 + j] == word@[j],
        decreases word.len() - k,
    {
        if text[r.0 + k] != word[k] {
            assert(slice_of(text@, r)[k as int] == text@[r.0 + k]);
            return false;
        }
        k += 1;
    }
    assert(slice_of(text@, r) =~= word@);
    true
}

/// Reads a typed line as a command.
pub fn parse_command(line: &str) -> (command: Command)
    ensures
        command@ == command_of(line@),
{
    let text = chars_of(line);
    let words = token_ranges(&text);
    if words.len() == 0 {
        return Command::Empty;
    }
    let quit: Vec<char> = vec!['q'];
    let cat: Vec<char> = vec!['c', 'a', 't'];
    let ob: Vec<char> = vec!['o', 'b'];
    assert(quit@ =~= seq!['q']);
    assert(cat@ =~= seq!['c', 'a', 't']);
    assert(ob@ =~= seq!['o', 'b']);
    if words.len() == 1 && range_is(&text, words[0], &quit) {
        return Command::Quit;
    }
    if words.len() == 2 {
        let name = words[1];
        if range_is(&text, words[0], &cat) {
            return Command::Cat(string_of(&text, name.0, name.1));
        }
        if range_is(&text, words[0], &ob) {
            return Command::OpenBrowser(string_of(&text, name.0, name.1));
        }
    }
    let whole = trim_range(&text);
    Command::Unknown(string_of(&text, whole.0, whole.1))
}

} // verus!
