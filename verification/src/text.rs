//! Character-level text model shared by the hub and the probe.
//!
//! Strings are modelled by their `Seq<char>` views. Positions are character
//! positions; every pattern searched for in this crate is ASCII, so they agree
//! with the byte positions that `str` methods work with.
use vstd::prelude::*;

verus! {

/// `char::is_whitespace`: the Unicode `White_Space` property.
pub open spec fn is_ws(c: char) -> bool {
    ||| ('\u{9}' <= c && c <= '\u{d}')
    ||| c == ' '
    ||| c == '\u{85}'
    ||| c == '\u{a0}'
    ||| c == '\u{1680}'
    ||| ('\u{2000}' <= c && c <= '\u{200a}')
    ||| c == '\u{2028}'
    ||| c == '\u{2029}'
    ||| c == '\u{202f}'
    ||| c == '\u{205f}'
    ||| c == '\u{3000}'
}

/// The sets of characters that the hub strips from the ends of strings.
#[derive(Clone, Copy, Debug, PartialEq, Eq)]
pub enum CharSet {
    /// `char::is_whitespace`.
    Whitespace,
    /// `[`, `]`, `"`, `:`, `,` and `'`: punctuation around words of a log line.
    LogDelims,
    /// `{`, `}`, `"`, `:`, `,` and `'`: punctuation around words of a JSON text.
    JsonDelims,
}

pub open spec fn in_set(set: CharSet, c: char) -> bool {
    match set {
        CharSet::Whitespace => is_ws(c),
        CharSet::LogDelims => c == '[' || c == ']' || c == '"' || c == ':' || c == ',' || c == '\'',
        CharSet::JsonDelims => c == '{' || c == '}' || c == '"' || c == ':' || c == ',' || c == '\'',
    }
}

/// Executable `is_ws`.
pub fn is_whitespace(c: char) -> (r: bool)
    ensures
        r == is_ws(c),
{
    ('\u{9}' <= c && c <= '\u{d}') || c == ' ' || c == '\u{85}' || c == '\u{a0}' || c == '\u{1680}'
        || ('\u{2000}' <= c && c <= '\u{200a}') || c == '\u{2028}' || c == '\u{2029}' || c
        == '\u{202f}' || c == '\u{205f}' || c == '\u{3000}'
}

/// Executable `in_set`.
pub fn set_contains(set: CharSet, c: char) -> (r: bool)
    ensures
        r == in_set(set, c),
{
    match set {
        CharSet::Whitespace => is_whitespace(c),
        CharSet::LogDelims => c == '[' || c == ']' || c == '"' || c == ':' || c == ',' || c == '\'',
        CharSet::JsonDelims => c == '{' || c == '}' || c == '"' || c == ':' || c == ',' || c == '\'',
    }
}

/// `s` without the characters of `set` at its start (`trim_start_matches`).
pub open spec fn trim_start_by(s: Seq<char>, set: CharSet) -> Seq<char>
    decreases s.len(),
{
    if s.len() > 0 && in_set(set, s[0]) {
        trim_start_by(s.drop_first(), set)
    } else {
        s
    }
}

/// `s` without the characters of `set` at its end (`trim_end_matches`).
pub open spec fn trim_end_by(s: Seq<char>, set: CharSet) -> Seq<char>
    decreases s.len(),
{
    if s.len() > 0 && in_set(set, s.last()) {
        trim_end_by(s.drop_last(), set)
    } else {
        s
    }
}

/// `s` without the characters of `set` at either end (`trim_matches`).
pub open spec fn trim_by(s: Seq<char>, set: CharSet) -> Seq<char> {
    trim_end_by(trim_start_by(s, set), set)
}

/// `str::trim`.
pub open spec fn trim(s: Seq<char>) -> Seq<char> {
    trim_by(s, CharSet::Whitespace)
}

/// `p` stands in `s` at position `i`.
pub open spec fn occurs_at(s: Seq<char>, p: Seq<char>, i: int) -> bool {
    0 <= i && i + p.len() <= s.len() && s.subrange(i, i + p.len()) == p
}

/// `str::contains`.
pub open spec fn contains(s: Seq<char>, p: Seq<char>) -> bool {
    exists|i: int| occurs_at(s, p, i)
}

/// The first position at or after `k` where `p` stands in `s`.
pub open spec fn find_from(s: Seq<char>, p: Seq<char>, k: int) -> Option<int>
    decreases s.len() + 1 - k,
{
    if k < 0 || k + p.len() > s.len() {
        None
    } else if occurs_at(s, p, k) {
        Some(k)
    } else {
        find_from(s, p, k + 1)
    }
}

/// `str::find`.
pub open spec fn find(s: Seq<char>, p: Seq<char>) -> Option<int> {
    find_from(s, p, 0)
}

/// The number of times `c` occurs in `s`.
pub open spec fn count_char(s: Seq<char>, c: char) -> nat
    decreases s.len(),
{
    if s.len() == 0 {
        0
    } else {
        count_char(s.drop_last(), c) + if s.last() == c { 1nat } else { 0nat }
    }
}

/// The end of the run of non-whitespace characters that starts at `i`.
pub open spec fn word_end(s: Seq<char>, i: int) -> int
    decreases s.len() - i,
{
    if 0 <= i < s.len() && !is_ws(s[i]) {
        word_end(s, i + 1)
    } else {
        i
    }
}

pub proof fn lemma_word_end(s: Seq<char>, i: int)
    requires
        0 <= i <= s.len(),
    ensures
        i <= word_end(s, i) <= s.len(),
        forall|k: int| i <= k < word_end(s, i) ==> !is_ws(#[trigger] s[k]),
        word_end(s, i) < s.len() ==> is_ws(s[word_end(s, i)]),
    decreases s.len() - i,
{
    if i < s.len() && !is_ws(s[i]) {
        lemma_word_end(s, i + 1);
    }
}

/// The whitespace-separated words of `s` from position `i` on.
pub open spec fn words_from(s: Seq<char>, i: int) -> Seq<Seq<char>>
    decreases s.len() - i,
{
    if i < 0 || i >= s.len() {
        seq![]
    } else if is_ws(s[i]) {
        words_from(s, i + 1)
    } else {
        let j = word_end(s, i);
        proof {
            lemma_word_end(s, i + 1);
        }
        seq![s.subrange(i, j)] + words_from(s, j)
    }
}

/// `str::split_whitespace`.
pub open spec fn split_whitespace(s: Seq<char>) -> Seq<Seq<char>> {
    words_from(s, 0)
}

/// The decimal digit for `d < 10`.
pub open spec fn digit_char(d: nat) -> char {
    (d + 48) as char
}

/// The decimal representation of `n`, as `Display` writes it.
pub open spec fn decimal(n: nat) -> Seq<char>
    decreases n,
{
    if n < 10 {
        seq![digit_char(n)]
    } else {
        decimal(n / 10) + seq![digit_char(n % 10)]
    }
}

/// The decimal representation of a signed `n`, as `Display` writes it.
pub open spec fn signed_decimal(n: int) -> Seq<char> {
    if n < 0 {
        seq!['-'] + decimal((-n) as nat)
    } else {
        decimal(n as nat)
    }
}

/// The characters of `s`, in order.
pub fn chars_of(s: &str) -> (v: Vec<char>)
    ensures
        v@ == s@,
{
    let mut v: Vec<char> = Vec::new();
    for c in it: s.chars()
        invariant
            v@ == it.seq().take(it.index()),
    {
        v.push(c);
    }
    v
}

/// Bounds `(a, b)` with `v[a..b]` equal to `v[lo..hi]` with the characters of
/// `set` stripped from both ends.
pub fn trim_range(v: &Vec<char>, lo: usize, hi: usize, set: CharSet) -> (r: (usize, usize))
    requires
        lo <= hi <= v.len(),
    ensures
        lo <= r.0 <= r.1 <= hi,
        v@.subrange(r.0 as int, r.1 as int) == trim_by(v@.subrange(lo as int, hi as int), set),
{
    let mut a = lo;
    while a < hi && set_contains(set, v[a])
        invariant
            lo <= a <= hi <= v.len(),
            trim_start_by(v@.subrange(lo as int, hi as int), set) == trim_start_by(
                v@.subrange(a as int, hi as int),
                set,
            ),
        decreases hi - a,
    {
        assert(v@.subrange(a as int, hi as int).drop_first() =~= v@.subrange(a + 1, hi as int));
        a = a + 1;
    }
    let mut b = hi;
    while b > a && set_contains(set, v[b - 1])
        invariant
            lo <= a <= b <= hi <= v.len(),
            trim_start_by(v@.subrange(lo as int, hi as int), set) == v@.subrange(a as int, hi as int),
            trim_end_by(v@.subrange(a as int, hi as int), set) == trim_end_by(
                v@.subrange(a as int, b as int),
                set,
            ),
        decreases b - a,
    {
        assert(v@.subrange(a as int, b as int).drop_last() =~= v@.subrange(a as int, b - 1));
        b = b - 1;
    }
    (a, b)
}

/// Bounds of `trim(s)` within `s`.
pub fn trim_bounds(v: &Vec<char>) -> (r: (usize, usize))
    ensures
        r.0 <= r.1 <= v.len(),
        v@.subrange(r.0 as int, r.1 as int) == trim(v@),
{
    assert(v@.subrange(0, v.len() as int) =~= v@);
    trim_range(v, 0, v.len(), CharSet::Whitespace)
}


pub proof fn lemma_find_from(s: Seq<char>, p: Seq<char>, k: int)
    requires
        0 <= k,
    ensures
        match find_from(s, p, k) {
            Some(i) => k <= i && occurs_at(s, p, i) && forall|j: int|
                k <= j < i ==> !occurs_at(s, p, j),
            None => forall|j: int| k <= j ==> !occurs_at(s, p, j),
        },
    decreases s.len() + 1 - k,
{
    if k + p.len() > s.len() {
    } else if occurs_at(s, p, k) {
    } else {
        lemma_find_from(s, p, k + 1);
    }
}

/// `contains` is `find` succeeding.
pub proof fn lemma_contains_find(s: Seq<char>, p: Seq<char>)
    ensures
        contains(s, p) <==> find(s, p) is Some,
{
    lemma_find_from(s, p, 0);
    if let Some(i) = find(s, p) {
        assert(occurs_at(s, p, i));
    }
}

/// Whether `p` stands in `v` at position `i`.
pub fn matches_at(v: &Vec<char>, p: &Vec<char>, i: usize) -> (r: bool)
    requires
        i + p.len() <= v.len(),
    ensures
        r == occurs_at(v@, p@, i as int),
{
    let mut k: usize = 0;
    while k < p.len()
        invariant
            i + p.len() <= v.len(),
            k <= p.len(),
            forall|m: int| 0 <= m < k ==> v@[i + m] == p@[m],
        decreases p.len() - k,
    {
        if v[i + k] != p[k] {
            assert(v@.subrange(i as int, i + p.len())[k as int] != p@[k as int]);
            return false;
        }
        k = k + 1;
    }
    assert(v@.subrange(i as int, i + p.len()) =~= p@);
    true
}

/// The first position at or after `k` where `p` stands in `v`.
pub fn find_at_or_after(v: &Vec<char>, p: &Vec<char>, k: usize) -> (r: Option<usize>)
    ensures
        match r {
            Some(i) => find_from(v@, p@, k as int) == Some(i as int),
            None => find_from(v@, p@, k as int) is None,
        },
{
    let mut i = k;
    while i <= v.len() && p.len() <= v.len() - i
        invariant
            k <= i,
            find_from(v@, p@, k as int) == find_from(v@, p@, i as int),
        decreases v.len() + 1 - i,
    {
        if matches_at(v, p, i) {
            return Some(i);
        }
        if i == v.len() {
            assert(find_from(v@, p@, i + 1) is None);
            return None;
        }
        i = i + 1;
    }
    None
}

/// Executable `contains`.
pub fn contains_chars(v: &Vec<char>, p: &Vec<char>) -> (r: bool)
    ensures
        r == contains(v@, p@),
{
    proof {
        lemma_contains_find(v@, p@);
    }
    find_at_or_after(v, p, 0).is_some()
}

/// How many times `c` occurs in `v[lo..hi]`.
pub fn count_in_range(v: &Vec<char>, lo: usize, hi: usize, c: char) -> (r: usize)
    requires
        lo <= hi <= v.len(),
    ensures
        r == count_char(v@.subrange(lo as int, hi as int), c),
{
    let mut n: usize = 0;
    let mut i = lo;
    while i < hi
        invariant
            lo <= i <= hi <= v.len(),
            n == count_char(v@.subrange(lo as int, i as int), c),
            n <= i - lo,
        decreases hi - i,
    {
        assert(v@.subrange(lo as int, i + 1).drop_last() =~= v@.subrange(lo as int, i as int));
        if v[i] == c {
            n = n + 1;
        }
        i = i + 1;
    }
    n
}

/// The end of the run of non-whitespace characters of `v` that starts at `i`.
pub fn word_end_at(v: &Vec<char>, i: usize) -> (r: usize)
    requires
        i <= v.len(),
    ensures
        r == word_end(v@, i as int),
{
    let mut j = i;
    while j < v.len() && !is_whitespace(v[j])
        invariant
            i <= j <= v.len(),
            word_end(v@, i as int) == word_end(v@, j as int),
        decreases v.len() - j,
    {
        j = j + 1;
    }
    j
}

/// The one-character string for a decimal digit.
fn digit_str(d: u64) -> (r: &'static str)
    requires
        d < 10,
    ensures
        r@ == seq![digit_char(d as nat)],
{
    if d == 0 {
        proof { reveal_strlit("0"); }
        "0"
    } else if d == 1 {
        proof { reveal_strlit("1"); }
        "1"
    } else if d == 2 {
        proof { reveal_strlit("2"); }
        "2"
    } else if d == 3 {
        proof { reveal_strlit("3"); }
        "3"
    } else if d == 4 {
        proof { reveal_strlit("4"); }
        "4"
    } else if d == 5 {
        proof { reveal_strlit("5"); }
        "5"
    } else if d == 6 {
        proof { reveal_strlit("6"); }
        "6"
    } else if d == 7 {
        proof { reveal_strlit("7"); }
        "7"
    } else if d == 8 {
        proof { reveal_strlit("8"); }
        "8"
    } else {
        proof { reveal_strlit("9"); }
        "9"
    }
}

/// Appends the decimal representation of `n` to `out`.
pub fn push_decimal(out: &mut String, n: u64)
    ensures
        final(out)@ == old(out)@ + decimal(n as nat),
    decreases n,
{
    if n < 10 {
        out.append(digit_str(n));
    } else {
        push_decimal(out, n / 10);
        out.append(digit_str(n % 10));
    }
}

/// Appends the decimal representation of a signed `n` to `out`.
pub fn push_signed_decimal(out: &mut String, n: i64)
    ensures
        final(out)@ == old(out)@ + signed_decimal(n as int),
{
    if n < 0 {
        proof { reveal_strlit("-"); }
        out.append("-");
        let m: u64 = if n == i64::MIN { 9223372036854775808u64 } else { (-n) as u64 };
        push_decimal(out, m);
    } else {
        push_decimal(out, n as u64);
    }
}


/// The first of `words`, with the characters of `set` stripped from its ends,
/// that holds exactly three dots (that `split('.')` cuts into four parts).
pub open spec fn first_dotted(words: Seq<Seq<char>>, set: CharSet) -> Option<Seq<char>>
    decreases words.len(),
{
    if words.len() == 0 {
        None
    } else {
        let c = trim_by(words[0], set);
        if count_char(c, '.') == 3 {
            Some(c)
        } else {
            first_dotted(words.drop_first(), set)
        }
    }
}

/// Bounds in `v` of `first_dotted(split_whitespace(v), set)`.
pub fn first_dotted_word(v: &Vec<char>, set: CharSet) -> (r: Option<(usize, usize)>)
    ensures
        match r {
            Some((a, b)) => a <= b <= v.len() && first_dotted(split_whitespace(v@), set) == Some(
                v@.subrange(a as int, b as int),
            ),
            None => first_dotted(split_whitespace(v@), set) is None,
        },
{
    let mut i: usize = 0;
    while i < v.len()
        invariant
            i <= v.len(),
            first_dotted(split_whitespace(v@), set) == first_dotted(words_from(v@, i as int), set),
        decreases v.len() - i,
    {
        if is_whitespace(v[i]) {
            i = i + 1;
        } else {
            let j = word_end_at(v, i);
            proof {
                lemma_word_end(v@, i + 1);
                let w = v@.subrange(i as int, j as int);
                let rest = words_from(v@, j as int);
                assert((seq![w] + rest).drop_first() =~= rest);
                assert((seq![w] + rest)[0] == w);
            }
            let (a, b) = trim_range(v, i, j, set);
            if count_in_range(v, a, b, '.') == 3 {
                return Some((a, b));
            }
            i = j;
        }
    }
    None
}


pub proof fn lemma_trim_start_front(s: Seq<char>, set: CharSet)
    ensures
        trim_start_by(s, set).len() <= s.len(),
        trim_start_by(s, set).len() > 0 ==> !in_set(set, trim_start_by(s, set)[0]),
    decreases s.len(),
{
    if s.len() > 0 && in_set(set, s[0]) {
        lemma_trim_start_front(s.drop_first(), set);
    }
}

pub proof fn lemma_trim_end_prefix(s: Seq<char>, set: CharSet)
    ensures
        trim_end_by(s, set).len() <= s.len(),
        forall|i: int| 0 <= i < trim_end_by(s, set).len() ==> #[trigger] trim_end_by(s, set)[i] == s[i],
        trim_end_by(s, set).len() > 0 ==> !in_set(set, trim_end_by(s, set).last()),
    decreases s.len(),
{
    if s.len() > 0 && in_set(set, s.last()) {
        lemma_trim_end_prefix(s.drop_last(), set);
    }
}

/// The result of `trim_by` starts and ends with characters outside `set`.
pub proof fn lemma_trim_by_ends(s: Seq<char>, set: CharSet)
    ensures
        trim_by(s, set).len() > 0 ==> !in_set(set, trim_by(s, set)[0]) && !in_set(
            set,
            trim_by(s, set).last(),
        ),
{
    let t = trim_start_by(s, set);
    lemma_trim_start_front(s, set);
    lemma_trim_end_prefix(t, set);
    if trim_by(s, set).len() > 0 {
        assert(trim_by(s, set)[0] == t[0]);
    }
}

/// A string that starts and ends with characters outside `set` is its own
/// `trim_by`.
pub proof fn lemma_trim_by_fixed(s: Seq<char>, set: CharSet)
    requires
        s.len() > 0 ==> !in_set(set, s[0]) && !in_set(set, s.last()),
    ensures
        trim_by(s, set) == s,
{
}

/// Trimming twice is trimming once.
pub proof fn lemma_trim_by_idempotent(s: Seq<char>, set: CharSet)
    ensures
        trim_by(trim_by(s, set), set) == trim_by(s, set),
{
    lemma_trim_by_ends(s, set);
    lemma_trim_by_fixed(trim_by(s, set), set);
}


/// A run of non-whitespace characters from `i` that whitespace or the end of
/// `s` stops at `e` ends at `e`.
pub proof fn lemma_word_end_exact(s: Seq<char>, i: int, e: int)
    requires
        0 <= i <= e <= s.len(),
        forall|k: int| i <= k < e ==> !is_ws(#[trigger] s[k]),
        e < s.len() ==> is_ws(s[e]),
    ensures
        word_end(s, i) == e,
    decreases e - i,
{
    if i < e {
        lemma_word_end_exact(s, i + 1, e);
    }
}

pub proof fn lemma_trim_start_suffix(s: Seq<char>, set: CharSet) -> (k: int)
    ensures
        0 <= k <= s.len(),
        trim_start_by(s, set) == s.subrange(k, s.len() as int),
    decreases s.len(),
{
    if s.len() > 0 && in_set(set, s[0]) {
        let k = lemma_trim_start_suffix(s.drop_first(), set);
        assert(s.drop_first().subrange(k, s.drop_first().len() as int) =~= s.subrange(
            k + 1,
            s.len() as int,
        ));
        k + 1
    } else {
        assert(s.subrange(0, s.len() as int) =~= s);
        0
    }
}

/// `trim_by` takes a contiguous part of its argument.
pub proof fn lemma_trim_by_subrange(s: Seq<char>, set: CharSet) -> (r: (int, int))
    ensures
        0 <= r.0 <= r.1 <= s.len(),
        trim_by(s, set) == s.subrange(r.0, r.1),
{
    let k = lemma_trim_start_suffix(s, set);
    let t = trim_start_by(s, set);
    lemma_trim_end_prefix(t, set);
    let n = trim_end_by(t, set).len();
    assert(trim_end_by(t, set) =~= s.subrange(k, k + n));
    (k, k + n)
}

/// A string without `c` holds `c` no times.
pub proof fn lemma_count_absent(s: Seq<char>, c: char)
    requires
        forall|k: int| 0 <= k < s.len() ==> #[trigger] s[k] != c,
    ensures
        count_char(s, c) == 0,
    decreases s.len(),
{
    if s.len() > 0 {
        lemma_count_absent(s.drop_last(), c);
    }
}

/// The words of `s` are non-empty runs of non-whitespace characters.
pub proof fn lemma_words_from_plain(s: Seq<char>, i: int)
    ensures
        forall|w: int, k: int|
            0 <= w < words_from(s, i).len() && 0 <= k < words_from(s, i)[w].len() ==> !is_ws(
                #[trigger] words_from(s, i)[w][k],
            ),
    decreases s.len() - i,
{
    if 0 <= i < s.len() {
        if is_ws(s[i]) {
            lemma_words_from_plain(s, i + 1);
            assert(words_from(s, i) == words_from(s, i + 1));
        } else {
            let j = word_end(s, i);
            lemma_word_end(s, i);
            lemma_word_end(s, i + 1);
            lemma_words_from_plain(s, j);
            let first = s.subrange(i, j);
            let rest = words_from(s, j);
            assert(words_from(s, i) == seq![first] + rest);
            assert forall|w: int, k: int|
                0 <= w < words_from(s, i).len() && 0 <= k < words_from(s, i)[w].len() implies !is_ws(
                #[trigger] words_from(s, i)[w][k],
            ) by {
                if w == 0 {
                    assert(words_from(s, i)[w] == first);
                    assert(first[k] == s[i + k]);
                } else {
                    assert(words_from(s, i)[w] == rest[w - 1]);
                }
            }
        }
    }
}

/// What `first_dotted` finds is one of the words, trimmed, with three dots.
pub proof fn lemma_first_dotted_member(words: Seq<Seq<char>>, set: CharSet)
    ensures
        first_dotted(words, set) matches Some(c) ==> exists|j: int|
            0 <= j < words.len() && c == trim_by(#[trigger] words[j], set) && count_char(c, '.')
                == 3,
    decreases words.len(),
{
    if words.len() > 0 {
        let c = trim_by(words[0], set);
        if count_char(c, '.') == 3 {
            assert(c == trim_by(words[0], set));
        } else {
            lemma_first_dotted_member(words.drop_first(), set);
            if let Some(c2) = first_dotted(words, set) {
                let j = choose|j: int|
                    0 <= j < words.drop_first().len() && c2 == trim_by(
                        #[trigger] words.drop_first()[j],
                        set,
                    ) && count_char(c2, '.') == 3;
                assert(words[j + 1] == words.drop_first()[j]);
            }
        }
    }
}


/// `first_dotted` picks the first word whose trimmed form holds exactly three
/// dots, and finds nothing only when no word does.
pub proof fn lemma_first_dotted_picks_first(words: Seq<Seq<char>>, set: CharSet)
    ensures
        forall|k: int|
            0 <= k < words.len() && count_char(trim_by(#[trigger] words[k], set), '.') == 3 && (
            forall|j: int| 0 <= j < k ==> count_char(trim_by(#[trigger] words[j], set), '.') != 3)
                ==> first_dotted(words, set) == Some(trim_by(words[k], set)),
        (forall|k: int|
            0 <= k < words.len() ==> count_char(trim_by(#[trigger] words[k], set), '.') != 3)
            ==> first_dotted(words, set) is None,
    decreases words.len(),
{
    if words.len() > 0 {
        let rest = words.drop_first();
        lemma_first_dotted_picks_first(rest, set);
        assert forall|k: int|
            0 <= k < words.len() && count_char(trim_by(#[trigger] words[k], set), '.') == 3 && (
            forall|j: int| 0 <= j < k ==> count_char(trim_by(#[trigger] words[j], set), '.') != 3)
                implies first_dotted(words, set) == Some(trim_by(words[k], set)) by {
            if k > 0 {
                assert(count_char(trim_by(words[0], set), '.') != 3);
                assert(rest[k - 1] == words[k]);
                assert forall|j: int| 0 <= j < k - 1 implies count_char(
                    trim_by(#[trigger] rest[j], set),
                    '.',
                ) != 3 by {
                    assert(rest[j] == words[j + 1]);
                }
            }
        }
        if forall|k: int|
            0 <= k < words.len() ==> count_char(trim_by(#[trigger] words[k], set), '.') != 3 {
            assert(count_char(trim_by(words[0], set), '.') != 3);
            assert forall|k: int| 0 <= k < rest.len() implies count_char(
                trim_by(#[trigger] rest[k], set),
                '.',
            ) != 3 by {
                assert(rest[k] == words[k + 1]);
            }
        }
    }
}


proof fn lemma_filter_plain_run(s: Seq<char>, i: int, j: int)
    requires
        0 <= i <= j <= s.len(),
        forall|k: int| i <= k < j ==> !is_ws(#[trigger] s[k]),
    ensures
        s.subrange(i, s.len() as int).filter(|c: char| !is_ws(c)) == s.subrange(i, j) + s.subrange(
            j,
            s.len() as int,
        ).filter(|c: char| !is_ws(c)),
    decreases j - i,
{
    let p = |c: char| !is_ws(c);
    if i < j {
        lemma_filter_plain_run(s, i + 1, j);
        let rest = s.subrange(i + 1, s.len() as int);
        assert(s.subrange(i, s.len() as int) =~= seq![s[i]] + rest);
        rest.lemma_filter_prepend(s[i], p);
        assert(seq![s[i]] + s.subrange(i + 1, j) =~= s.subrange(i, j));
        assert(seq![s[i]] + (s.subrange(i + 1, j) + s.subrange(j, s.len() as int).filter(p))
            =~= s.subrange(i, j) + s.subrange(j, s.len() as int).filter(p));
    } else {
        assert(s.subrange(i, j) =~= Seq::<char>::empty());
        assert(Seq::<char>::empty() + s.subrange(j, s.len() as int).filter(p) =~= s.subrange(
            j,
            s.len() as int,
        ).filter(p));
    }
}

proof fn lemma_words_from_flatten(s: Seq<char>, i: int)
    requires
        0 <= i <= s.len(),
    ensures
        words_from(s, i).flatten() == s.subrange(i, s.len() as int).filter(|c: char| !is_ws(c)),
    decreases s.len() - i,
{
    let p = |c: char| !is_ws(c);
    if i == s.len() {
        reveal(Seq::filter);
        assert(s.subrange(i, s.len() as int) =~= Seq::<char>::empty());
        assert(words_from(s, i) =~= Seq::<Seq<char>>::empty());
        assert(s.subrange(i, s.len() as int).filter(p) =~= Seq::<char>::empty());
    } else if is_ws(s[i]) {
        lemma_words_from_flatten(s, i + 1);
        let rest = s.subrange(i + 1, s.len() as int);
        assert(s.subrange(i, s.len() as int) =~= seq![s[i]] + rest);
        rest.lemma_filter_prepend(s[i], p);
        assert(Seq::<char>::empty() + rest.filter(p) =~= rest.filter(p));
    } else {
        let j = word_end(s, i);
        lemma_word_end(s, i);
        lemma_word_end(s, i + 1);
        lemma_words_from_flatten(s, j);
        lemma_filter_plain_run(s, i, j);
        let w = s.subrange(i, j);
        let rest = words_from(s, j);
        assert(words_from(s, i) == seq![w] + rest);
        assert((seq![w] + rest).first() == w);
        assert((seq![w] + rest).drop_first() =~= rest);
    }
}

/// The words of `s` are non-empty and free of whitespace, and together, in
/// order, they hold exactly the non-whitespace characters of `s`: no word is
/// dropped, cut short or added.
pub proof fn law_split_whitespace_keeps_text(s: Seq<char>)
    ensures
        split_whitespace(s).flatten() == s.filter(|c: char| !is_ws(c)),
        forall|w: int, k: int|
            0 <= w < split_whitespace(s).len() && 0 <= k < split_whitespace(s)[w].len() ==> !is_ws(
                #[trigger] split_whitespace(s)[w][k],
            ),
        forall|w: int| 0 <= w < split_whitespace(s).len() ==> #[trigger] split_whitespace(s)[w].len() > 0,
{
    lemma_words_from_flatten(s, 0);
    assert(s.subrange(0, s.len() as int) =~= s);
    lemma_words_from_plain(s, 0);
    lemma_words_nonempty(s, 0);
}

proof fn lemma_words_nonempty(s: Seq<char>, i: int)
    ensures
        forall|w: int| 0 <= w < words_from(s, i).len() ==> #[trigger] words_from(s, i)[w].len() > 0,
    decreases s.len() - i,
{
    if 0 <= i < s.len() {
        if is_ws(s[i]) {
            lemma_words_nonempty(s, i + 1);
            assert(words_from(s, i) == words_from(s, i + 1));
        } else {
            let j = word_end(s, i);
            lemma_word_end(s, i);
            lemma_word_end(s, i + 1);
            lemma_words_nonempty(s, j);
            let rest = words_from(s, j);
            assert(words_from(s, i) == seq![s.subrange(i, j)] + rest);
            assert forall|w: int| 0 <= w < words_from(s, i).len() implies #[trigger] words_from(s, i)[w].len() > 0 by {
                if w > 0 {
                    assert(words_from(s, i)[w] == rest[w - 1]);
                }
            }
        }
    }
}


/// `count_char(s, c)` is how many characters of `s` equal `c`.
pub proof fn law_count_char(s: Seq<char>, c: char)
    ensures
        count_char(s, c) == s.filter(|x: char| x == c).len(),
    decreases s.len(),
{
    reveal(Seq::filter);
    if s.len() > 0 {
        law_count_char(s.drop_last(), c);
    }
}

} // verus!
