//! The probe: which new log lines are threats, and where in the log file to
//! read next.
use vstd::prelude::*;
use crate::agents::{strings_view, substring};
use crate::text::{chars_of, contains, contains_chars, occurs_at, trim, trim_bounds};

verus! {

/// What `str::to_lowercase` gives for a string: Unicode's full lowercase
/// mapping, including its context-dependent rules (final sigma).
pub uninterp spec fn unicode_lowercase(s: Seq<char>) -> Seq<char>;

/// All characters of `s` are ASCII.
pub open spec fn all_ascii(s: Seq<char>) -> bool {
    forall|i: int| 0 <= i < s.len() ==> (#[trigger] s[i] as int) < 128
}

/// The ASCII lowercase of `c`: `A`..`Z` become `a`..`z`, other characters stay.
pub open spec fn ascii_lower(c: char) -> char {
    if 'A' <= c && c <= 'Z' {
        ((c as int) + 32) as char
    } else {
        c
    }
}

/// `s` with every character put through `ascii_lower`.
pub open spec fn ascii_lowercase(s: Seq<char>) -> Seq<char> {
    s.map_values(|c: char| ascii_lower(c))
}

/// `str::to_lowercase` of std. Its contract claims that the result is
/// `unicode_lowercase` of the argument, a function of the argument alone, and
/// that on ASCII text it is the ASCII lowercase (std lowercases an ASCII
/// string byte by byte with `u8::to_ascii_lowercase`). Nothing more is claimed
/// of non-ASCII text.
#[verifier::external_body]
fn to_lowercase(s: &str) -> (r: String)
    ensures
        r@ == unicode_lowercase(s@),
        all_ascii(s@) ==> r@ == ascii_lowercase(s@),
{
    s.to_lowercase()
}

/// A lowercased line names one of the attack signatures.
pub open spec fn names_threat(lower: Seq<char>) -> bool {
    ||| contains(lower, "malicious-scan"@)
    ||| contains(lower, "exploit"@)
    ||| contains(lower, "sql-injection"@)
    ||| contains(lower, "admin-bypass"@)
    ||| contains(lower, "cve-"@)
}


/// The attack signatures are exactly `malicious-scan`, `exploit`,
/// `sql-injection`, `admin-bypass` and `cve-`: a lowercased line names a
/// threat when it contains one of them, and a line that contains none of them
/// (such as one that says only `admin`) names none.
pub proof fn law_threat_signatures(lower: Seq<char>)
    ensures
        contains(lower, "malicious-scan"@) ==> names_threat(lower),
        contains(lower, "exploit"@) ==> names_threat(lower),
        contains(lower, "sql-injection"@) ==> names_threat(lower),
        contains(lower, "admin-bypass"@) ==> names_threat(lower),
        contains(lower, "cve-"@) ==> names_threat(lower),
        !contains(lower, "malicious-scan"@) && !contains(lower, "exploit"@) && !contains(
            lower,
            "sql-injection"@,
        ) && !contains(lower, "admin-bypass"@) && !contains(lower, "cve-"@) ==> !names_threat(
            lower,
        ),
{
}

/// Whether an already lowercased line names an attack signature.
pub fn has_threat_keyword(lower: &str) -> (r: bool)
    ensures
        r == names_threat(lower@),
{
    let v = chars_of(lower);
    contains_chars(&v, &chars_of("malicious-scan")) || contains_chars(&v, &chars_of("exploit"))
        || contains_chars(&v, &chars_of("sql-injection")) || contains_chars(
        &v,
        &chars_of("admin-bypass"),
    ) || contains_chars(&v, &chars_of("cve-"))
}

/// Whether a log line, lowercased, names an attack signature. On ASCII lines
/// the match ignores case.
pub fn check_malicious_activity(line: &str) -> (r: bool)
    ensures
        r == names_threat(unicode_lowercase(line@)),
        all_ascii(line@) ==> r == names_threat(ascii_lowercase(line@)),
{
    let lower = to_lowercase(line);
    has_threat_keyword(lower.as_str())
}


/// A pattern that stands in `x` stands in `x` with text added on either side.
pub proof fn lemma_contains_in_context(x: Seq<char>, y: Seq<char>, p: Seq<char>)
    requires
        contains(x, p),
    ensures
        contains(x + y, p),
        contains(y + x, p),
{
    let i = choose|i: int| occurs_at(x, p, i);
    assert((x + y).subrange(i, i + p.len()) =~= x.subrange(i, i + p.len()));
    assert(occurs_at(x + y, p, i));
    let j = i + y.len();
    assert((y + x).subrange(j, j + p.len()) =~= x.subrange(i, i + p.len()));
    assert(occurs_at(y + x, p, j));
}

/// A line that names a signature still names it with text added on either side.
pub proof fn lemma_names_threat_in_context(x: Seq<char>, y: Seq<char>)
    requires
        names_threat(x),
    ensures
        names_threat(x + y),
        names_threat(y + x),
{
    if contains(x, "malicious-scan"@) {
        lemma_contains_in_context(x, y, "malicious-scan"@);
    } else if contains(x, "exploit"@) {
        lemma_contains_in_context(x, y, "exploit"@);
    } else if contains(x, "sql-injection"@) {
        lemma_contains_in_context(x, y, "sql-injection"@);
    } else if contains(x, "admin-bypass"@) {
        lemma_contains_in_context(x, y, "admin-bypass"@);
    } else {
        lemma_contains_in_context(x, y, "cve-"@);
    }
}

/// A threat line stays a threat line with text added before or after it: on
/// ASCII text, where `check_malicious_activity` is the signature match of the
/// ASCII lowercase, a line that matches still matches inside a longer line.
pub proof fn law_threat_survives_context(a: Seq<char>, b: Seq<char>)
    requires
        all_ascii(a),
        all_ascii(b),
        names_threat(ascii_lowercase(a)),
    ensures
        all_ascii(a + b),
        all_ascii(b + a),
        names_threat(ascii_lowercase(a + b)),
        names_threat(ascii_lowercase(b + a)),
{
    assert(ascii_lowercase(a + b) =~= ascii_lowercase(a) + ascii_lowercase(b));
    assert(ascii_lowercase(b + a) =~= ascii_lowercase(b) + ascii_lowercase(a));
    lemma_names_threat_in_context(ascii_lowercase(a), ascii_lowercase(b));
    assert forall|i: int| 0 <= i < (a + b).len() implies (#[trigger] (a + b)[i] as int) < 128 by {
        if i < a.len() {
            assert((a + b)[i] == a[i]);
        } else {
            assert((a + b)[i] == b[i - a.len()]);
        }
    }
    assert forall|i: int| 0 <= i < (b + a).len() implies (#[trigger] (b + a)[i] as int) < 128 by {
        if i < b.len() {
            assert((b + a)[i] == b[i]);
        } else {
            assert((b + a)[i] == a[i - b.len()]);
        }
    }
}

/// The position of the first line feed at or after `i`, or the end.
pub open spec fn next_newline(s: Seq<char>, i: int) -> int
    decreases s.len() - i,
{
    if 0 <= i < s.len() && s[i] != '\n' {
        next_newline(s, i + 1)
    } else {
        i
    }
}

pub proof fn lemma_next_newline(s: Seq<char>, i: int)
    requires
        0 <= i <= s.len(),
    ensures
        i <= next_newline(s, i) <= s.len(),
        next_newline(s, i) < s.len() ==> s[next_newline(s, i)] == '\n',
    decreases s.len() - i,
{
    if i < s.len() && s[i] != '\n' {
        lemma_next_newline(s, i + 1);
    }
}

/// The line `s[i..j]`, ended at `j` by a line feed or by the end of `s`; a
/// carriage return before a line feed is not part of the line.
pub open spec fn line_at(s: Seq<char>, i: int, j: int) -> Seq<char> {
    let l = s.subrange(i, j);
    if j < s.len() && l.len() > 0 && l.last() == '\r' {
        l.drop_last()
    } else {
        l
    }
}

/// The lines of `s` from position `i` on.
pub open spec fn lines_from(s: Seq<char>, i: int) -> Seq<Seq<char>>
    decreases s.len() + 1 - i,
{
    if i < 0 || i >= s.len() {
        seq![]
    } else {
        let j = next_newline(s, i);
        proof {
            lemma_next_newline(s, i);
        }
        seq![line_at(s, i, j)] + lines_from(s, j + 1)
    }
}

/// `str::lines`.
pub open spec fn lines(s: Seq<char>) -> Seq<Seq<char>> {
    lines_from(s, 0)
}


/// Lines each followed by a line feed, one after the other.
pub open spec fn newline_terminated(ls: Seq<Seq<char>>) -> Seq<char>
    decreases ls.len(),
{
    if ls.len() == 0 {
        Seq::empty()
    } else {
        ls[0] + seq!['\n'] + newline_terminated(ls.drop_first())
    }
}

/// `s` with a line feed added at its end when it does not already end with one.
pub open spec fn with_final_newline(s: Seq<char>) -> Seq<char> {
    if s.len() == 0 || s.last() == '\n' {
        s
    } else {
        s.push('\n')
    }
}

proof fn lemma_lines_from_rebuild(s: Seq<char>, i: int)
    requires
        0 <= i <= s.len(),
        i > 0 ==> s[i - 1] == '\n',
        forall|k: int| 0 <= k < s.len() ==> #[trigger] s[k] != '\r',
    ensures
        newline_terminated(lines_from(s, i)) == (if s.len() == 0 || s.last() == '\n' {
            s.subrange(i, s.len() as int)
        } else {
            s.subrange(i, s.len() as int).push('\n')
        }),
        forall|w: int, k: int|
            0 <= w < lines_from(s, i).len() && 0 <= k < lines_from(s, i)[w].len() ==> #[trigger] lines_from(s, i)[w][k] != '\n',
    decreases s.len() - i,
{
    if i < s.len() {
        let j = next_newline(s, i);
        lemma_next_newline(s, i);
        lemma_next_newline_clear(s, i);
        let l = s.subrange(i, j);
        assert(line_at(s, i, j) == l);
        let rest = lines_from(s, j + 1);
        assert(lines_from(s, i) == seq![l] + rest);
        assert((seq![l] + rest).drop_first() =~= rest);
        assert((seq![l] + rest)[0] == l);
        assert(newline_terminated(lines_from(s, i)) == l + seq!['\n'] + newline_terminated(rest));
        if j < s.len() {
            lemma_lines_from_rebuild(s, j + 1);
            if s.len() == 0 || s.last() == '\n' {
                assert(l + seq!['\n'] + s.subrange(j + 1, s.len() as int) =~= s.subrange(i, s.len() as int));
            } else {
                assert(l + seq!['\n'] + s.subrange(j + 1, s.len() as int).push('\n') =~= s.subrange(i, s.len() as int).push('\n'));
            }
        } else {
            assert(rest == Seq::<Seq<char>>::empty());
            assert(s.last() != '\n');
            assert(l + seq!['\n'] + Seq::<char>::empty() =~= s.subrange(i, s.len() as int).push('\n'));
        }
        assert forall|w: int, k: int|
            0 <= w < lines_from(s, i).len() && 0 <= k < lines_from(s, i)[w].len() implies #[trigger] lines_from(s, i)[w][k] != '\n' by {
            if w == 0 {
                assert(lines_from(s, i)[w] == l);
                assert(l[k] == s[i + k]);
            } else {
                assert(lines_from(s, i)[w] == rest[w - 1]);
            }
        }
    } else {
        assert(lines_from(s, i) == Seq::<Seq<char>>::empty());
        assert(newline_terminated(lines_from(s, i)) == Seq::<char>::empty());
        assert(s.subrange(i, s.len() as int) =~= Seq::<char>::empty());
    }
}

proof fn lemma_next_newline_clear(s: Seq<char>, i: int)
    requires
        0 <= i <= s.len(),
    ensures
        forall|k: int| i <= k < next_newline(s, i) ==> #[trigger] s[k] != '\n',
    decreases s.len() - i,
{
    if i < s.len() && s[i] != '\n' {
        lemma_next_newline_clear(s, i + 1);
    }
}

/// On text without carriage returns, the lines hold no line feed, and writing
/// each of them followed by a line feed gives back the text (with a final line
/// feed added when the text lacks one). So no line is dropped, split or merged.
pub proof fn law_lines_rebuild_text(s: Seq<char>)
    requires
        forall|k: int| 0 <= k < s.len() ==> #[trigger] s[k] != '\r',
    ensures
        newline_terminated(lines(s)) == with_final_newline(s),
        forall|w: int, k: int|
            0 <= w < lines(s).len() && 0 <= k < lines(s)[w].len() ==> #[trigger] lines(s)[w][k] != '\n',
{
    lemma_lines_from_rebuild(s, 0);
    assert(s.subrange(0, s.len() as int) =~= s);
}

/// A line that the probe reports: not blank, and naming a threat.
pub open spec fn reportable(l: Seq<char>) -> bool {
    trim(l).len() > 0 && names_threat(unicode_lowercase(l))
}

/// The reportable lines among `ls`, in order.
pub open spec fn select_threats(ls: Seq<Seq<char>>) -> Seq<Seq<char>>
    decreases ls.len(),
{
    if ls.len() == 0 {
        seq![]
    } else {
        (if reportable(ls[0]) {
            seq![ls[0]]
        } else {
            seq![]
        }) + select_threats(ls.drop_first())
    }
}


/// Every line that the probe reports is one of the lines it was given, and a
/// reportable one.
pub proof fn lemma_reported_lines_are_threats(ls: Seq<Seq<char>>)
    ensures
        forall|k: int|
            0 <= k < select_threats(ls).len() ==> reportable(#[trigger] select_threats(ls)[k])
                && ls.contains(select_threats(ls)[k]),
    decreases ls.len(),
{
    if ls.len() > 0 {
        let rest = ls.drop_first();
        lemma_reported_lines_are_threats(rest);
        let head = if reportable(ls[0]) {
            seq![ls[0]]
        } else {
            seq![]
        };
        assert forall|k: int| 0 <= k < select_threats(ls).len() implies reportable(
            #[trigger] select_threats(ls)[k],
        ) && ls.contains(select_threats(ls)[k]) by {
            if k < head.len() {
                assert(select_threats(ls)[k] == ls[0]);
            } else {
                let x = select_threats(rest)[k - head.len()];
                assert(select_threats(ls)[k] == x);
                let i = choose|i: int| 0 <= i < rest.len() && rest[i] == x;
                assert(ls[i + 1] == x);
            }
        }
    }
}


pub proof fn lemma_select_is_filter(ls: Seq<Seq<char>>)
    ensures
        select_threats(ls) == ls.filter(
            |l: Seq<char>| trim(l).len() > 0 && names_threat(unicode_lowercase(l)),
        ),
    decreases ls.len(),
{
    let p = |l: Seq<char>| trim(l).len() > 0 && names_threat(unicode_lowercase(l));
    if ls.len() == 0 {
        reveal(Seq::filter);
        assert(ls.filter(p) =~= Seq::<Seq<char>>::empty());
    } else {
        let rest = ls.drop_first();
        lemma_select_is_filter(rest);
        assert(ls =~= seq![ls[0]] + rest);
        rest.lemma_filter_prepend(ls[0], p);
        assert(p(ls[0]) == reportable(ls[0]));
    }
}

/// The probe reports every line of the chunk that is not blank and names a
/// threat, in order, and nothing else: what it reports is the chunk's lines
/// filtered by that test. So no threat line is dropped, and the number of
/// reports is the number of such lines.
pub proof fn law_threat_lines_complete(text: Seq<char>)
    ensures
        select_threats(lines(text)) == lines(text).filter(
            |l: Seq<char>| trim(l).len() > 0 && names_threat(unicode_lowercase(l)),
        ),
        forall|k: int|
            0 <= k < lines(text).len() && trim(#[trigger] lines(text)[k]).len() > 0 && names_threat(
                unicode_lowercase(lines(text)[k]),
            ) ==> select_threats(lines(text)).contains(lines(text)[k]),
{
    let ls = lines(text);
    let p = |l: Seq<char>| trim(l).len() > 0 && names_threat(unicode_lowercase(l));
    lemma_select_is_filter(ls);
    assert forall|k: int|
        0 <= k < ls.len() && trim(#[trigger] ls[k]).len() > 0 && names_threat(
            unicode_lowercase(ls[k]),
        ) implies select_threats(ls).contains(ls[k]) by {
        ls.lemma_filter_contains_rev(p, ls[k]);
    }
}

/// The lines of a chunk of the log that the probe reports to the hub.
pub fn threat_lines(text: &str) -> (r: Vec<String>)
    ensures
        strings_view(r@) == select_threats(lines(text@)),
{
    let v = chars_of(text);
    let mut out: Vec<String> = Vec::new();
    let mut i: usize = 0;
    while i < v.len()
        invariant
            v@ == text@,
            i <= v.len(),
            strings_view(out@) + select_threats(lines_from(v@, i as int)) == select_threats(
                lines(v@),
            ),
        decreases v.len() - i,
    {
        let mut j = i;
        while j < v.len() && v[j] != '\n'
            invariant
                i <= j <= v.len(),
                next_newline(v@, i as int) == next_newline(v@, j as int),
            decreases v.len() - j,
        {
            j = j + 1;
        }
        let end = if j < v.len() && j > i && v[j - 1] == '\r' {
            j - 1
        } else {
            j
        };
        let line = substring(text, i, end);
        proof {
            let l = line_at(v@, i as int, j as int);
            assert(line@ =~= l);
            let rest = lines_from(v@, j + 1);
            assert((seq![l] + rest)[0] == l);
            assert((seq![l] + rest).drop_first() =~= rest);
        }
        let lv = chars_of(line.as_str());
        let (a, b) = trim_bounds(&lv);
        if a < b && check_malicious_activity(line.as_str()) {
            let ghost before = strings_view(out@);
            out.push(line);
            proof {
                assert(strings_view(out@) =~= before + seq![line@]);
                let rest = select_threats(lines_from(v@, j + 1));
                assert(before + (seq![line@] + rest) =~= (before + seq![line@]) + rest);
            }
        } else {
            proof {
                let rest = select_threats(lines_from(v@, j + 1));
                assert(seq![] + rest =~= rest);
            }
        }
        if j < v.len() {
            i = j + 1;
        } else {
            assert(lines_from(v@, j + 1) == lines_from(v@, j as int));
            i = j;
        }
    }
    proof {
        assert(strings_view(out@) + seq![] =~= strings_view(out@));
    }
    out
}

/// Where the probe stands in the log file: the offset up to which it has read.
pub struct ProbeCursor {
    pub last_pos: u64,
}

/// What the probe does after looking at the file's length.
#[derive(PartialEq, Eq, Structural, Clone, Copy, Debug)]
pub enum ProbeAction {
    /// Nothing new: wait for the next poll.
    Wait,
    /// The file shrank (truncated or rotated): reopen it and read from its start.
    Reopen,
    /// Read what was appended, from this offset.
    ReadFrom(u64),
}

impl ProbeCursor {
    /// A cursor that starts at `pos` (the end of the file when the probe attaches).
    pub fn at(pos: u64) -> (c: ProbeCursor)
        ensures
            c.last_pos == pos,
    {
        ProbeCursor { last_pos: pos }
    }

    /// Decides what to do now that the file is `len` bytes long: reopen from
    /// the start if it shrank, read the appended part if it grew, wait if it
    /// stayed.
    pub fn on_length(&mut self, len: u64) -> (a: ProbeAction)
        ensures
            len < old(self).last_pos ==> final(self).last_pos == 0 && a == ProbeAction::Reopen,
            len == old(self).last_pos ==> final(self).last_pos == old(self).last_pos && a
                == ProbeAction::Wait,
            len > old(self).last_pos ==> final(self).last_pos == old(self).last_pos && a
                == ProbeAction::ReadFrom(old(self).last_pos),
    {
        if len < self.last_pos {
            self.last_pos = 0;
            ProbeAction::Reopen
        } else if len > self.last_pos {
            ProbeAction::ReadFrom(self.last_pos)
        } else {
            ProbeAction::Wait
        }
    }

    /// Moves past `n` bytes that were read.
    pub fn on_read(&mut self, n: u64)
        requires
            old(self).last_pos + n <= u64::MAX,
        ensures
            final(self).last_pos == old(self).last_pos + n,
    {
        self.last_pos = self.last_pos + n;
    }
}

} // verus!
