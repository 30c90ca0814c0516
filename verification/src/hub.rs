//! The hub's handling of an alert: from the analyst's verdict to the answer
//! that the probe gets.
use vstd::prelude::*;
use crate::agents::{
    analyst_ip, analyst_verdict, codex_defense_command, defense_command, fallback_ip, trimmed,
};
use crate::text::{
    chars_of, count_char, first_dotted, first_dotted_word, in_set, is_ws, lemma_count_absent,
    lemma_first_dotted_member, lemma_first_dotted_picks_first, lemma_trim_by_ends, lemma_trim_by_subrange, lemma_word_end_exact,
    lemma_words_from_plain, split_whitespace, trim, trim_by, trim_end_by, trim_start_by, words_from,
    CharSet,
};

verus! {

/// The address that the fallback parser reads from an analyst's reply that is
/// not a JSON verdict is the first whitespace-separated word that, stripped of
/// `{ } " : , '` at its ends, holds exactly three dots; the fallback address
/// when there is none.
pub open spec fn fallback_parse_ip(text: Seq<char>) -> Seq<char> {
    match first_dotted(split_whitespace(text), CharSet::JsonDelims) {
        Some(ip) => ip,
        None => fallback_ip(),
    }
}


/// The fallback parser returns the first word anywhere in the text that,
/// stripped of `{ } " : , '` at its ends, holds exactly three dots; it falls
/// back to 10.211.55.100 only when no word of the whole text qualifies.
pub proof fn law_fallback_parser_names_first_address(text: Seq<char>)
    ensures
        forall|k: int|
            0 <= k < split_whitespace(text).len() && count_char(
                trim_by(#[trigger] split_whitespace(text)[k], CharSet::JsonDelims),
                '.',
            ) == 3 && (forall|j: int|
                0 <= j < k ==> count_char(
                    trim_by(#[trigger] split_whitespace(text)[j], CharSet::JsonDelims),
                    '.',
                ) != 3) ==> fallback_parse_ip(text) == trim_by(
                split_whitespace(text)[k],
                CharSet::JsonDelims,
            ),
        (forall|k: int|
            0 <= k < split_whitespace(text).len() ==> count_char(
                trim_by(#[trigger] split_whitespace(text)[k], CharSet::JsonDelims),
                '.',
            ) != 3) ==> fallback_parse_ip(text) == "10.211.55.100"@,
{
    lemma_first_dotted_picks_first(split_whitespace(text), CharSet::JsonDelims);
}

/// The fallback parser of analyst replies (see `fallback_parse_ip`).
pub fn mock_extract_ip(text: &str) -> (r: String)
    ensures
        r@ == fallback_parse_ip(text@),
{
    let v = chars_of(text);
    match first_dotted_word(&v, CharSet::JsonDelims) {
        Some((a, b)) => crate::agents::substring(text, a, b),
        None => String::from_str("10.211.55.100"),
    }
}

/// Whom the analyst says to block, and why.
#[derive(Clone, Debug)]
pub struct AntigravityDecision {
    pub attacker_ip: String,
    pub reason: String,
}

/// The reason given when the fallback parser named the attacker.
pub open spec fn fallback_reason() -> Seq<char> {
    "Fallback parser: extracted target IP directly from raw response."@
}

/// The verdict from the analyst's reply: the verdict that the reply holds
/// when it parsed as one (`Some`), else the fallback parser's address.
pub fn resolve_decision(parsed: Option<AntigravityDecision>, raw: &str) -> (d: AntigravityDecision)
    ensures
        match parsed {
            Some(p) => d.attacker_ip@ == p.attacker_ip@ && d.reason@ == p.reason@,
            None => d.attacker_ip@ == fallback_parse_ip(raw@) && d.reason@ == fallback_reason(),
        },
{
    match parsed {
        Some(p) => p,
        None => AntigravityDecision {
            attacker_ip: mock_extract_ip(raw),
            reason: String::from_str("Fallback parser: extracted target IP directly from raw response."),
        },
    }
}

/// The answer to an alert.
#[derive(Clone, Debug)]
pub struct AlertResponse {
    pub status: String,
    pub message: String,
}

/// The step that the handling of an alert waits on.
#[derive(PartialEq, Eq, Structural, Clone, Copy, Debug)]
pub enum AlertStage {
    /// The defender's block in the sandbox.
    Defending,
    /// The red team's challenge of the block.
    Challenging,
    /// The healing of the dotfiles repository.
    Healing,
    /// Nothing: the answer is ready.
    Answered,
}

/// What the caller does next for an alert.
pub enum AlertAction {
    /// Run this command in the sandbox; report with `on_defense`.
    Defend(String),
    /// Run the red team's challenge against the block; report with `on_challenge`.
    Challenge,
    /// Heal the dotfiles repository; report with `on_heal`.
    Heal,
    /// Answer the alert.
    Respond(AlertResponse),
}

/// The handling of one alert once the attacker is known: block it, let the
/// red team challenge the block, and heal the repository when the block held.
/// `message` collects one part per finished step.
pub struct AlertFlow {
    pub attacker_ip: String,
    pub stage: AlertStage,
    pub message: String,
}

/// The answer of a finished flow.
pub open spec fn answers(a: AlertAction, message: Seq<char>) -> bool {
    a matches AlertAction::Respond(r) && r.status@ == "processed"@ && r.message@ == message
}

impl AlertFlow {
    /// The handling of an alert whose attacker is `attacker_ip`; it starts
    /// with the defender's command.
    pub fn new(attacker_ip: &str) -> (r: (AlertFlow, AlertAction))
        ensures
            r.0.attacker_ip@ == attacker_ip@,
            r.0.stage == AlertStage::Defending,
            r.0.message@ == Seq::<char>::empty(),
            r.1 matches AlertAction::Defend(cmd) && cmd@ == defense_command(attacker_ip@),
    {
        let flow = AlertFlow {
            attacker_ip: String::from_str(attacker_ip),
            stage: AlertStage::Defending,
            message: String::new(),
        };
        (flow, AlertAction::Defend(codex_defense_command(attacker_ip)))
    }

    fn respond(&self) -> (a: AlertAction)
        ensures
            answers(a, self.message@),
    {
        AlertAction::Respond(AlertResponse { status: String::from_str("processed"), message: self.message.clone() })
    }

    /// Takes the result of the defender's command: on success its trimmed
    /// output is noted and the challenge follows; on failure the error is
    /// noted and the alert is answered.
    pub fn on_defense(&mut self, result: Result<String, String>) -> (a: AlertAction)
        requires
            old(self).stage == AlertStage::Defending,
        ensures
            final(self).attacker_ip == old(self).attacker_ip,
            match result {
                Ok(out) => final(self).stage == AlertStage::Challenging && a is Challenge
                    && final(self).message@ == old(self).message@ + "[Codex Success] "@ + trim(out@) + "; "@,
                Err(e) => final(self).stage == AlertStage::Answered && final(self).message@
                    == old(self).message@ + "[Codex Failed] "@ + e@ && answers(a, final(self).message@),
            },
    {
        match result {
            Ok(out) => {
                self.message.append("[Codex Success] ");
                self.message.append(trimmed(out.as_str()).as_str());
                self.message.append("; ");
                self.stage = AlertStage::Challenging;
                AlertAction::Challenge
            },
            Err(e) => {
                self.message.append("[Codex Failed] ");
                self.message.append(e.as_str());
                self.stage = AlertStage::Answered;
                self.respond()
            },
        }
    }

    /// Takes the verdict of the red team's challenge: a defended block is
    /// noted and the healing follows; a bypass (or a failed challenge) is
    /// noted and the alert is answered without healing.
    pub fn on_challenge(&mut self, result: Result<String, String>) -> (a: AlertAction)
        requires
            old(self).stage == AlertStage::Challenging,
        ensures
            final(self).attacker_ip == old(self).attacker_ip,
            match result {
                Ok(out) => final(self).stage == AlertStage::Healing && a is Heal
                    && final(self).message@ == old(self).message@ + "[Grok-3 Verified] "@ + trim(out@) + "; "@,
                Err(e) => final(self).stage == AlertStage::Answered && final(self).message@
                    == old(self).message@ + "[Grok-3 Challenge Failed] "@ + trim(e@) && answers(a, final(self).message@),
            },
    {
        match result {
            Ok(out) => {
                self.message.append("[Grok-3 Verified] ");
                self.message.append(trimmed(out.as_str()).as_str());
                self.message.append("; ");
                self.stage = AlertStage::Healing;
                AlertAction::Heal
            },
            Err(e) => {
                self.message.append("[Grok-3 Challenge Failed] ");
                self.message.append(trimmed(e.as_str()).as_str());
                self.stage = AlertStage::Answered;
                self.respond()
            },
        }
    }

    /// Takes the result of the healing, notes it, and answers the alert.
    pub fn on_heal(&mut self, result: Result<String, String>) -> (a: AlertAction)
        requires
            old(self).stage == AlertStage::Healing,
        ensures
            final(self).attacker_ip == old(self).attacker_ip,
            final(self).stage == AlertStage::Answered,
            answers(a, final(self).message@),
            final(self).message@ == old(self).message@ + match result {
                Ok(out) => "[Auto-Heal Success] "@ + trim(out@),
                Err(e) => "[Auto-Heal Failed] "@ + trim(e@),
            },
    {
        match result {
            Ok(out) => {
                self.message.append("[Auto-Heal Success] ");
                self.message.append(trimmed(out.as_str()).as_str());
            },
            Err(e) => {
                self.message.append("[Auto-Heal Failed] ");
                self.message.append(trimmed(e.as_str()).as_str());
            },
        }
        self.stage = AlertStage::Answered;
        self.respond()
    }
}


// ---------------------------------------------------------------------------
// The fallback parser reads the offline analyst
// ---------------------------------------------------------------------------

/// The shape of the addresses that the offline analyst reports: exactly
/// three dots, no whitespace, and none of `[ ] " : , '` at either end.
pub open spec fn analyst_address(ip: Seq<char>) -> bool {
    &&& ip.len() > 0
    &&& count_char(ip, '.') == 3
    &&& forall|k: int| 0 <= k < ip.len() ==> !is_ws(#[trigger] ip[k])
    &&& !in_set(CharSet::LogDelims, ip[0])
    &&& !in_set(CharSet::LogDelims, ip.last())
}

/// Every address that the offline analyst reports has the shape of
/// `analyst_address`.
pub proof fn lemma_analyst_ip_shape(log_line: Seq<char>)
    ensures
        analyst_address(analyst_ip(log_line)),
{
    let words = split_whitespace(log_line);
    lemma_first_dotted_member(words, CharSet::LogDelims);
    match first_dotted(words, CharSet::LogDelims) {
        Some(c) => {
            let j = choose|j: int|
                0 <= j < words.len() && c == trim_by(#[trigger] words[j], CharSet::LogDelims)
                    && count_char(c, '.') == 3;
            let w = words[j];
            lemma_words_from_plain(log_line, 0);
            let (a, b) = lemma_trim_by_subrange(w, CharSet::LogDelims);
            lemma_trim_by_ends(w, CharSet::LogDelims);
            assert forall|k: int| 0 <= k < c.len() implies !is_ws(#[trigger] c[k]) by {
                assert(c[k] == w[a + k]);
                assert(!is_ws(words_from(log_line, 0)[j][a + k]));
            }
            assert(c.len() > 0);
        },
        None => {
            reveal_strlit("10.211.55.100");
            let d = "10.211.55.100"@;
            assert(d.len() == 13);
            assert(count_char(d, '.') == 3) by {
                reveal_with_fuel(count_char, 14);
            }
        },
    }
}

/// `verdict` with its first words laid out: `{"attacker_ip":`, a space, and
/// the quoted address followed by `",`.
proof fn lemma_verdict_layout(ip: Seq<char>)
    ensures
        ({
            let s = analyst_verdict(ip);
            let n = ip.len() as int;
            &&& s.len() > n + 19
            &&& s.subrange(0, 15) == "{\"attacker_ip\":"@
            &&& s[15] == ' '
            &&& s.subrange(16, n + 19) == seq!['"'] + ip + seq!['"', ',']
            &&& s[n + 19] == ' '
        }),
{
    let p = "{\"attacker_ip\": \""@;
    let q = "\", \"reason\": \"Detected malicious scanner traffic matching pattern in log.\"}"@;
    reveal_strlit("{\"attacker_ip\": \"");
    reveal_strlit("\", \"reason\": \"Detected malicious scanner traffic matching pattern in log.\"}");
    reveal_strlit("{\"attacker_ip\":");
    let s = analyst_verdict(ip);
    let n = ip.len() as int;
    assert(s == p + ip + q);
    assert(p.len() == 17);
    assert(s.subrange(0, 15) =~= "{\"attacker_ip\":"@);
    assert(s[15] == p[15]);
    assert(s.subrange(16, n + 19) =~= seq!['"'] + ip + seq!['"', ',']);
    assert(s[n + 19] == q[2]);
}

/// The fallback parser reads back an address of the analyst's shape from the
/// analyst's verdict, when the address neither begins nor ends with a brace.
pub proof fn lemma_fallback_reads_verdict(ip: Seq<char>)
    requires
        analyst_address(ip),
        ip[0] != '{' && ip[0] != '}',
        ip.last() != '{' && ip.last() != '}',
    ensures
        fallback_parse_ip(analyst_verdict(ip)) == ip,
{
    let s = analyst_verdict(ip);
    let n = ip.len() as int;
    lemma_verdict_layout(ip);
    reveal_strlit("{\"attacker_ip\":");
    let w0 = "{\"attacker_ip\":"@;
    // The first word is the key, which holds no dot.
    assert forall|k: int| 0 <= k < 15 implies !is_ws(#[trigger] s[k]) by {
        assert(s[k] == s.subrange(0, 15)[k]);
    }
    lemma_word_end_exact(s, 0, 15);
    let rest0 = words_from(s, 15);
    assert(words_from(s, 0) == seq![s.subrange(0, 15)] + rest0);
    let (a, b) = lemma_trim_by_subrange(w0, CharSet::JsonDelims);
    let t0 = trim_by(w0, CharSet::JsonDelims);
    assert forall|k: int| 0 <= k < t0.len() implies #[trigger] t0[k] != '.' by {
        assert(t0[k] == w0[a + k]);
    }
    lemma_count_absent(t0, '.');
    assert((seq![w0] + rest0).drop_first() =~= rest0);
    assert(first_dotted(words_from(s, 0), CharSet::JsonDelims) == first_dotted(
        rest0,
        CharSet::JsonDelims,
    ));
    // A space, then the quoted address.
    assert(rest0 == words_from(s, 16));
    let w1 = seq!['"'] + ip + seq!['"', ','];
    assert forall|k: int| 16 <= k < n + 19 implies !is_ws(#[trigger] s[k]) by {
        assert(s[k] == s.subrange(16, n + 19)[k - 16]);
        if 1 <= k - 16 < n + 1 {
            assert(w1[k - 16] == ip[k - 17]);
        }
    }
    lemma_word_end_exact(s, 16, n + 19);
    let rest1 = words_from(s, n + 19);
    assert(words_from(s, 16) == seq![w1] + rest1);
    // Stripping the quotes and the comma leaves the address.
    assert(w1.drop_first() =~= ip + seq!['"', ',']);
    assert(trim_start_by(ip + seq!['"', ','], CharSet::JsonDelims) == ip + seq!['"', ',']);
    assert(trim_start_by(w1, CharSet::JsonDelims) == ip + seq!['"', ',']);
    assert((ip + seq!['"', ',']).drop_last() =~= ip + seq!['"']);
    assert((ip + seq!['"']).drop_last() =~= ip);
    assert(trim_end_by(ip, CharSet::JsonDelims) == ip);
    assert(trim_end_by(ip + seq!['"'], CharSet::JsonDelims) == ip);
    assert(trim_end_by(ip + seq!['"', ','], CharSet::JsonDelims) == ip);
    assert(trim_by(w1, CharSet::JsonDelims) == ip);
    assert((seq![w1] + rest1)[0] == w1);
}

/// What the offline analyst writes, the hub's fallback parser reads back: the
/// parser finds in the analyst's verdict the address that the analyst named,
/// unless that address begins or ends with a brace, which the parser strips.
pub proof fn law_fallback_reads_offline_verdict(log_line: Seq<char>)
    requires
        analyst_ip(log_line)[0] != '{' && analyst_ip(log_line)[0] != '}',
        analyst_ip(log_line).last() != '{' && analyst_ip(log_line).last() != '}',
    ensures
        fallback_parse_ip(analyst_verdict(analyst_ip(log_line))) == analyst_ip(log_line),
{
    lemma_analyst_ip_shape(log_line);
    lemma_fallback_reads_verdict(analyst_ip(log_line));
}

} // verus!
