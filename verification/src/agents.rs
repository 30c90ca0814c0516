//! The agents of the hub: the analyst that names the attacker, the defender that
//! blocks it, the red team that tries to get past the block, and the repository
//! that records it.
use vstd::prelude::*;
use crate::text::{
    chars_of, contains, contains_chars, occurs_at, decimal, find, find_at_or_after, find_from,
    first_dotted, first_dotted_word, lemma_find_from, lemma_first_dotted_picks_first, count_char, trim_by, lemma_trim_by_idempotent, push_decimal,
    push_signed_decimal, signed_decimal, split_whitespace, trim, trim_bounds, trim_range, CharSet,
};

verus! {

/// One message of a chat with a language model.
#[derive(Clone, Debug)]
pub struct Message {
    pub role: String,
    pub content: String,
}

impl View for Message {
    type V = (Seq<char>, Seq<char>);

    open spec fn view(&self) -> (Seq<char>, Seq<char>) {
        (self.role@, self.content@)
    }
}

/// The views of a list of messages.
pub open spec fn messages_view(ms: Seq<Message>) -> Seq<(Seq<char>, Seq<char>)> {
    ms.map_values(|m: Message| m@)
}

/// The view of a `Result` of strings.
pub open spec fn result_view(r: Result<String, String>) -> Result<Seq<char>, Seq<char>> {
    match r {
        Ok(s) => Ok(s@),
        Err(e) => Err(e@),
    }
}

/// An owned copy of `s[a..b]` (character positions).
pub fn substring(s: &str, a: usize, b: usize) -> (r: String)
    requires
        a <= b <= s@.len(),
    ensures
        r@ == s@.subrange(a as int, b as int),
{
    String::from_str(s.substring_char(a, b))
}

/// A message with the given role and content.
pub fn message(role: &str, content: String) -> (m: Message)
    ensures
        m@ == (role@, content@),
{
    Message { role: String::from_str(role), content }
}

// ---------------------------------------------------------------------------
// Python code in a model reply
// ---------------------------------------------------------------------------

/// The code that a reply of the red-team model carries: the trimmed body of
/// its first "```python" block when that block is closed by a later "```";
/// otherwise the whole trimmed reply if it mentions "import requests";
/// otherwise nothing.
pub open spec fn python_block(m: Seq<char>) -> Option<Seq<char>> {
    let open = "```python"@;
    let fenced = match find(m, open) {
        Some(start) => match find_from(m, "```"@, start + open.len()) {
            Some(end) => Some(trim(m.subrange(start + open.len(), end))),
            None => None,
        },
        None => None,
    };
    if fenced is Some {
        fenced
    } else if contains(m, "import requests"@) {
        Some(trim(m))
    } else {
        None
    }
}


/// `a` is where "```python" first opens in `m`, and `b` is the first "```"
/// at or after the end of that opener: the reply's first closed Python block.
pub open spec fn first_closed_block(m: Seq<char>, a: int, b: int) -> bool {
    &&& occurs_at(m, "```python"@, a)
    &&& forall|j: int| 0 <= j < a ==> !occurs_at(m, "```python"@, j)
    &&& a + "```python"@.len() <= b
    &&& occurs_at(m, "```"@, b)
    &&& forall|j: int| a + "```python"@.len() <= j < b ==> !occurs_at(m, "```"@, j)
}

/// Where the code of a red-team reply comes from. When the reply's first
/// "```python" opener is closed by a later "```", the code is what stands
/// between them, trimmed. Otherwise there is code only if the reply contains
/// the text "import requests" (a mere "import" or "important" is not enough),
/// and then it is the whole reply, trimmed.
pub proof fn law_python_code_source(m: Seq<char>)
    ensures
        forall|a: int, b: int|
            #[trigger] first_closed_block(m, a, b) ==> python_block(m) == Some(
                trim(m.subrange(a + "```python"@.len(), b)),
            ),
        (forall|a: int, b: int| !#[trigger] first_closed_block(m, a, b)) ==> python_block(m) == (
        if contains(m, "import requests"@) {
            Some(trim(m))
        } else {
            None
        }),
{
    let open = "```python"@;
    let fence = "```"@;
    lemma_find_from(m, open, 0);
    match find(m, open) {
        Some(a) => {
            lemma_find_from(m, fence, a + open.len());
            match find_from(m, fence, a + open.len()) {
                Some(b) => {
                    assert(first_closed_block(m, a, b));
                    assert forall|a2: int, b2: int|
                        #[trigger] first_closed_block(m, a2, b2) implies a2 == a && b2 == b by {
                        if a2 < a {
                        } else if a < a2 {
                        }
                        if b2 < b {
                        } else if b < b2 {
                        }
                    }
                },
                None => {
                    assert forall|a2: int, b2: int| !#[trigger] first_closed_block(m, a2, b2) by {
                        if first_closed_block(m, a2, b2) {
                            if a2 < a {
                            } else if a < a2 {
                            }
                            assert(!occurs_at(m, fence, b2));
                        }
                    }
                },
            }
        },
        None => {
            assert forall|a2: int, b2: int| !#[trigger] first_closed_block(m, a2, b2) by {
                if first_closed_block(m, a2, b2) {
                    assert(!occurs_at(m, open, a2));
                }
            }
        },
    }
}

/// Extracts the Python code from a red-team reply (see `python_block`).
pub fn extract_python_code(markdown: &str) -> (r: Option<String>)
    ensures
        r.deep_view() == python_block(markdown@),
{
    let v = chars_of(markdown);
    let open = chars_of("```python");
    let fence = chars_of("```");
    if let Some(start) = find_at_or_after(&v, &open, 0) {
        proof {
            lemma_find_from(v@, open@, 0);
        }
        let from = start + open.len();
        if let Some(end) = find_at_or_after(&v, &fence, from) {
            proof {
                lemma_find_from(v@, fence@, from as int);
            }
            let (a, b) = trim_range(&v, from, end, CharSet::Whitespace);
            return Some(substring(markdown, a, b));
        }
    }
    let marker = chars_of("import requests");
    if contains_chars(&v, &marker) {
        let (a, b) = trim_bounds(&v);
        return Some(substring(markdown, a, b));
    }
    None
}



/// The code taken from a reply neither begins nor ends with whitespace:
/// trimming it again changes nothing.
pub proof fn lemma_extracted_code_trimmed(m: Seq<char>)
    ensures
        python_block(m) matches Some(c) ==> trim(c) == c,
{
    lemma_trim_by_idempotent(m, CharSet::Whitespace);
    if let Some(start) = find(m, "```python"@) {
        let from = start + "```python"@.len();
        if let Some(end) = find_from(m, "```"@, from) {
            lemma_trim_by_idempotent(m.subrange(from, end), CharSet::Whitespace);
        }
    }
}

// ---------------------------------------------------------------------------
// Offline analyst
// ---------------------------------------------------------------------------

/// The address that blocks fall back to when a text names none.
pub open spec fn fallback_ip() -> Seq<char> {
    "10.211.55.100"@
}

/// The address that the offline analyst reads from a log line: the first
/// whitespace-separated word that, stripped of `[ ] " : , '` at its ends, holds
/// exactly three dots; the fallback address when there is none.
pub open spec fn analyst_ip(log_line: Seq<char>) -> Seq<char> {
    match first_dotted(split_whitespace(log_line), CharSet::LogDelims) {
        Some(ip) => ip,
        None => fallback_ip(),
    }
}


/// The offline analyst names the first word of the whole log line that,
/// stripped of `[ ] " : , '` at its ends, holds exactly three dots, wherever
/// that word stands; it falls back to 10.211.55.100 only when no word of the
/// line qualifies.
pub proof fn law_analyst_names_first_address(log_line: Seq<char>)
    ensures
        forall|k: int|
            0 <= k < split_whitespace(log_line).len() && count_char(
                trim_by(#[trigger] split_whitespace(log_line)[k], CharSet::LogDelims),
                '.',
            ) == 3 && (forall|j: int|
                0 <= j < k ==> count_char(
                    trim_by(#[trigger] split_whitespace(log_line)[j], CharSet::LogDelims),
                    '.',
                ) != 3) ==> analyst_ip(log_line) == trim_by(
                split_whitespace(log_line)[k],
                CharSet::LogDelims,
            ),
        (forall|k: int|
            0 <= k < split_whitespace(log_line).len() ==> count_char(
                trim_by(#[trigger] split_whitespace(log_line)[k], CharSet::LogDelims),
                '.',
            ) != 3) ==> analyst_ip(log_line) == "10.211.55.100"@,
{
    lemma_first_dotted_picks_first(split_whitespace(log_line), CharSet::LogDelims);
}

/// The JSON verdict that the offline analyst gives for an address.
pub open spec fn analyst_verdict(ip: Seq<char>) -> Seq<char> {
    "{\"attacker_ip\": \""@ + ip
        + "\", \"reason\": \"Detected malicious scanner traffic matching pattern in log.\"}"@
}

/// The offline analyst: names the attacker of a log line in a JSON verdict.
pub fn mock_antigravity_analyze(log_line: &str) -> (r: String)
    ensures
        r@ == analyst_verdict(analyst_ip(log_line@)),
{
    let v = chars_of(log_line);
    let ip = match first_dotted_word(&v, CharSet::LogDelims) {
        Some((a, b)) => substring(log_line, a, b),
        None => String::from_str("10.211.55.100"),
    };
    let mut r = String::from_str("{\"attacker_ip\": \"");
    r.append(ip.as_str());
    r.append("\", \"reason\": \"Detected malicious scanner traffic matching pattern in log.\"}");
    r
}

/// The system prompt of the online analyst.
pub open spec fn analyst_prompt() -> Seq<char> {
    "You are Antigravity, the Chief AI Architect. Analyze the attack log line and output the exact IP address that should be blocked, along with a brief explanation. Output in JSON format: {\"attacker_ip\": \"x.x.x.x\", \"reason\": \"xxx\"}."@
}

/// The chat that asks the online analyst about a log line: its system prompt,
/// then the line as the user's message.
pub fn antigravity_messages(log_line: &str) -> (r: Vec<Message>)
    ensures
        messages_view(r@) == seq![("system"@, analyst_prompt()), ("user"@, log_line@)],
{
    let mut r: Vec<Message> = Vec::new();
    r.push(message("system", String::from_str("You are Antigravity, the Chief AI Architect. Analyze the attack log line and output the exact IP address that should be blocked, along with a brief explanation. Output in JSON format: {\"attacker_ip\": \"x.x.x.x\", \"reason\": \"xxx\"}.")));
    r.push(message("user", String::from_str(log_line)));
    assert(messages_view(r@) =~= seq![("system"@, analyst_prompt()), ("user"@, log_line@)]);
    r
}

/// The analyst's verdict once the online model has been asked or not: the
/// model's reply when it was asked and answered (`Some(Ok(..))`), otherwise
/// the offline analyst's verdict on the line.
pub fn antigravity_conclude(reply: Option<Result<String, String>>, log_line: &str) -> (r: String)
    ensures
        r@ == match reply {
            Some(Ok(content)) => content@,
            _ => analyst_verdict(analyst_ip(log_line@)),
        },
{
    match reply {
        Some(Ok(content)) => content,
        _ => mock_antigravity_analyze(log_line),
    }
}

// ---------------------------------------------------------------------------
// Defender
// ---------------------------------------------------------------------------

/// The shell command that blocks `ip`, and the probing host 10.211.55.2, in the
/// packet filter of the sandbox.
pub open spec fn defense_command(ip: Seq<char>) -> Seq<char> {
    "sudo pfctl -t blocked_ips -T add "@ + ip
        + " && sudo pfctl -t blocked_ips -T add 10.211.55.2 && echo '[Codex] Attacker IP and Host IP successfully blocked in macOS kernel Packet Filter (PF).'"@
}

/// Builds the command that the defender runs in the sandbox.
pub fn codex_defense_command(attacker_ip: &str) -> (r: String)
    ensures
        r@ == defense_command(attacker_ip@),
{
    let mut r = String::from_str("sudo pfctl -t blocked_ips -T add ");
    r.append(attacker_ip);
    r.append(" && sudo pfctl -t blocked_ips -T add 10.211.55.2 && echo '[Codex] Attacker IP and Host IP successfully blocked in macOS kernel Packet Filter (PF).'");
    r
}


// ---------------------------------------------------------------------------
// Processes
// ---------------------------------------------------------------------------

/// How a child process (ssh, git) ended, as the caller saw it.
pub enum ProcessReport {
    /// The process ran; `code` is its exit code, absent when a signal ended it.
    Finished { success: bool, code: Option<i32>, stdout: String, stderr: String },
    /// The process could not be started, with the error's text.
    SpawnFailed(String),
}

/// The arguments of the `ssh` call that runs `cmd` in the sandbox.
pub open spec fn ssh_args_spec(
    key_path: Seq<char>,
    user: Seq<char>,
    host: Seq<char>,
    cmd: Seq<char>,
) -> Seq<Seq<char>> {
    seq![
        "-o"@,
        "StrictHostKeyChecking=no"@,
        "-o"@,
        "IdentitiesOnly=yes"@,
        "-i"@,
        key_path,
        user + "@"@ + host,
        cmd,
    ]
}

/// The views of a list of strings.
pub open spec fn strings_view(v: Seq<String>) -> Seq<Seq<char>> {
    v.map_values(|s: String| s@)
}

/// Builds the arguments of the `ssh` call that runs `cmd` in the sandbox.
pub fn ssh_args(config: &crate::config::AppConfig, cmd: &str) -> (r: Vec<String>)
    ensures
        strings_view(r@) == ssh_args_spec(
            config.ssh_key_path@,
            config.vm_user@,
            config.vm_ip@,
            cmd@,
        ),
{
    let mut dest = config.vm_user.clone();
    dest.append("@");
    dest.append(config.vm_ip.as_str());
    let mut r: Vec<String> = Vec::new();
    r.push(String::from_str("-o"));
    r.push(String::from_str("StrictHostKeyChecking=no"));
    r.push(String::from_str("-o"));
    r.push(String::from_str("IdentitiesOnly=yes"));
    r.push(String::from_str("-i"));
    r.push(config.ssh_key_path.clone());
    r.push(dest);
    r.push(String::from_str(cmd));
    assert(strings_view(r@) =~= ssh_args_spec(
        config.ssh_key_path@,
        config.vm_user@,
        config.vm_ip@,
        cmd@,
    ));
    r
}

/// What running a command in the sandbox gives: its output when it
/// succeeded; its exit code (-1 when a signal ended it) and error output when
/// it failed; the spawn error when `ssh` could not start.
pub open spec fn ssh_result(report: ProcessReport) -> Result<Seq<char>, Seq<char>> {
    match report {
        ProcessReport::Finished { success, code, stdout, stderr } => if success {
            Ok(stdout@)
        } else {
            Err("Exit code "@ + signed_decimal(
                match code {
                    Some(c) => c as int,
                    None => -1,
                },
            ) + ". Stderr: "@ + stderr@)
        },
        ProcessReport::SpawnFailed(e) => Err("Failed to spawn SSH process: "@ + e@),
    }
}

/// Interprets how the `ssh` call of `run_command_in_vm` ended.
pub fn ssh_outcome(report: ProcessReport) -> (r: Result<String, String>)
    ensures
        result_view(r) == ssh_result(report),
{
    match report {
        ProcessReport::Finished { success, code, stdout, stderr } => {
            if success {
                Ok(stdout)
            } else {
                let c: i64 = match code {
                    Some(c) => c as i64,
                    None => -1,
                };
                let mut e = String::from_str("Exit code ");
                push_signed_decimal(&mut e, c);
                e.append(". Stderr: ");
                e.append(stderr.as_str());
                Err(e)
            }
        },
        ProcessReport::SpawnFailed(msg) => {
            let mut e = String::from_str("Failed to spawn SSH process: ");
            e.append(msg.as_str());
            Err(e)
        },
    }
}

/// What a git call gives: its output when it succeeded; its trimmed output
/// and error output when it failed; the spawn error when git could not start.
pub open spec fn git_result(report: ProcessReport) -> Result<Seq<char>, Seq<char>> {
    match report {
        ProcessReport::Finished { success, code, stdout, stderr } => if success {
            Ok(stdout@)
        } else {
            Err("Git error. Stdout: "@ + trim(stdout@) + ". Stderr: "@ + trim(stderr@))
        },
        ProcessReport::SpawnFailed(e) => Err("Failed to spawn git process: "@ + e@),
    }
}

/// An owned copy of `trim(s)`.
pub fn trimmed(s: &str) -> (r: String)
    ensures
        r@ == trim(s@),
{
    let v = chars_of(s);
    let (a, b) = trim_bounds(&v);
    substring(s, a, b)
}

/// Interprets how a git call of the repository healing ended.
pub fn git_outcome(report: ProcessReport) -> (r: Result<String, String>)
    ensures
        result_view(r) == git_result(report),
{
    match report {
        ProcessReport::Finished { success, stdout, stderr, .. } => {
            if success {
                Ok(stdout)
            } else {
                let mut e = String::from_str("Git error. Stdout: ");
                e.append(trimmed(stdout.as_str()).as_str());
                e.append(". Stderr: ");
                e.append(trimmed(stderr.as_str()).as_str());
                Err(e)
            }
        },
        ProcessReport::SpawnFailed(msg) => {
            let mut e = String::from_str("Failed to spawn git process: ");
            e.append(msg.as_str());
            Err(e)
        },
    }
}

// ---------------------------------------------------------------------------
// Language models
// ---------------------------------------------------------------------------

/// How a chat-completion request ended, as the caller saw it.
pub enum LlmReply {
    /// A success status and a body that parsed, with its choices' messages.
    Choices(Vec<Message>),
    /// A success status and a body that did not parse, with the error's text.
    UnreadableBody(String),
    /// An error status (its text) and the body that came with it.
    ErrorStatus { status: String, body: String },
    /// The request failed, with the error's text.
    RequestFailed(String),
}

/// What a chat-completion request gives: the content of the first choice, or
/// an error that says what went wrong.
pub open spec fn llm_result(reply: LlmReply) -> Result<Seq<char>, Seq<char>> {
    match reply {
        LlmReply::Choices(ms) => if ms.len() > 0 {
            Ok(ms[0].content@)
        } else {
            Err("LLM returned empty choices"@)
        },
        LlmReply::UnreadableBody(e) => Err("Failed to parse JSON response: "@ + e@),
        LlmReply::ErrorStatus { status, body } => Err(
            "LLM API returned error code "@ + status@ + ": "@ + body@,
        ),
        LlmReply::RequestFailed(e) => Err("HTTP request failed: "@ + e@),
    }
}

/// Interprets how the request of `call_llm` ended.
pub fn llm_outcome(reply: LlmReply) -> (r: Result<String, String>)
    ensures
        result_view(r) == llm_result(reply),
{
    match reply {
        LlmReply::Choices(ms) => {
            if ms.len() > 0 {
                Ok(ms[0].content.clone())
            } else {
                Err(String::from_str("LLM returned empty choices"))
            }
        },
        LlmReply::UnreadableBody(msg) => {
            let mut e = String::from_str("Failed to parse JSON response: ");
            e.append(msg.as_str());
            Err(e)
        },
        LlmReply::ErrorStatus { status, body } => {
            let mut e = String::from_str("LLM API returned error code ");
            e.append(status.as_str());
            e.append(": ");
            e.append(body.as_str());
            Err(e)
        },
        LlmReply::RequestFailed(msg) => {
            let mut e = String::from_str("HTTP request failed: ");
            e.append(msg.as_str());
            Err(e)
        },
    }
}


// ---------------------------------------------------------------------------
// Red team
// ---------------------------------------------------------------------------

/// The most rounds that the red team gets.
pub open spec fn max_rounds() -> nat {
    3
}

/// The system prompt of the red-team model.
pub open spec fn red_team_prompt(vm_ip: Seq<char>, attacker_ip: Seq<char>) -> Seq<char> {
    "You are Grok-3, a elite Red-Team security expert. Your target server is 'http://"@ + vm_ip
        + ":8089/'. The firewall has blocked your original IP address ("@ + attacker_ip
        + "). Your mission is to write a single Python 3 script using 'requests' library to test the firewall. You must attempt different HTTP headers (like X-Attacker-IP) or bypass strategies to see if you can access the target port 8089. Your Python script MUST print 'SUCCESS' to stdout if it gets HTTP 200 OK, and print 'BLOCKED' if it gets 403 or encounters a Connection Timeout. IMPORTANT: Output ONLY the python script enclosed in a ```python ``` markdown block. No other explanation text."@
}

/// The first request to the red-team model.
pub open spec fn red_team_opening() -> Seq<char> {
    "Generate your first exploit PoC python script to bypass the firewall."@
}

/// The request after a blocked round.
pub open spec fn red_team_retry(round: nat) -> Seq<char> {
    "Your PoC in round "@ + decimal(round)
        + " was BLOCKED. Please refine your Python script to try a different evasion headers (e.g. X-Attacker-IP bypass or custom header) to bypass the firewall."@
}

/// The start of every offline exploit script, up to the spoofed address.
pub open spec fn script_head() -> Seq<char> {
    "```python\nimport requests\ntry:\n    headers = {'X-Attacker-IP': '"@
}

/// The part of an offline exploit script between the spoofed address and the target.
pub open spec fn script_middle() -> Seq<char> {
    "'}\n    res = requests.get('http://"@
}

/// The end of every offline exploit script, after the target.
pub open spec fn script_tail() -> Seq<char> {
    ":8089/', headers=headers, timeout=2)\n    if res.status_code == 200:\n        print('SUCCESS')\n    else:\n        print('BLOCKED')\nexcept Exception:\n    print('BLOCKED')\n```"@
}

/// The offline red team's reply for a round: a fenced script that sends the
/// attacker's address (rounds 1 and 2) or 1.1.1.1 (any other round) in the
/// `X-Attacker-IP` header to port 8089 of the sandbox, and prints SUCCESS on
/// status 200 and BLOCKED otherwise.
pub open spec fn exploit_script(round: u32, vm_ip: Seq<char>, attacker_ip: Seq<char>) -> Seq<char> {
    let spoofed = if round == 1 || round == 2 {
        attacker_ip
    } else {
        "1.1.1.1"@
    };
    script_head() + spoofed + script_middle() + vm_ip + script_tail()
}

/// The offline red team (see `exploit_script`).
pub fn mock_grok_exploit_code(round: u32, vm_ip: &str, attacker_ip: &str) -> (r: String)
    ensures
        r@ == exploit_script(round, vm_ip@, attacker_ip@),
{
    let mut r = String::from_str("```python\nimport requests\ntry:\n    headers = {'X-Attacker-IP': '");
    if round == 1 || round == 2 {
        r.append(attacker_ip);
    } else {
        r.append("1.1.1.1");
    }
    r.append("'}\n    res = requests.get('http://");
    r.append(vm_ip);
    r.append(":8089/', headers=headers, timeout=2)\n    if res.status_code == 200:\n        print('SUCCESS')\n    else:\n        print('BLOCKED')\nexcept Exception:\n    print('BLOCKED')\n```");
    r
}

/// The line that a round adds to the summary of the challenge.
pub open spec fn round_entry(round: nat, output: Seq<char>) -> Seq<char> {
    "[Round "@ + decimal(round) + ": "@ + output + "] "@
}

/// The verdict when a round got past the firewall.
pub open spec fn bypass_verdict(round: nat) -> Seq<char> {
    "[Grok-3] Bypass SUCCESSFUL on round "@ + decimal(round)
        + "! Attack bypassed the firewall rules. Defense configuration has vulnerabilities."@
}

/// The verdict when every round was blocked.
pub open spec fn defended_verdict(summary: Seq<char>) -> Seq<char> {
    "Grok-3 completed 3 rounds of dynamic evasion but all attacks were BLOCKED by VM kernel PF Firewall. (Test Run: "@
        + trim(summary) + "). Defense verified successfully!"@
}

/// The error when a reply carries no Python code.
pub open spec fn unparsable_reply(raw: Seq<char>) -> Seq<char> {
    "[Grok-3] Failed to parse python code block from Grok response: "@ + raw
}


/// Why a round's script could not be run, with the error's text.
pub enum ScriptFailure {
    /// The script file could not be created.
    Create(String),
    /// The script could not be written to its file.
    Write(String),
    /// The interpreter could not be started.
    Execute(String),
}

/// The error that ends the challenge when a round's script could not be run.
pub open spec fn script_failure_text(f: ScriptFailure) -> Seq<char> {
    match f {
        ScriptFailure::Create(e) => "Failed to create script file: "@ + e@,
        ScriptFailure::Write(e) => "Failed to write script: "@ + e@,
        ScriptFailure::Execute(e) => "Failed to execute Python PoC: "@ + e@,
    }
}

/// Builds the error of `script_failure_text`.
pub fn script_failure_message(f: ScriptFailure) -> (r: String)
    ensures
        r@ == script_failure_text(f),
{
    match f {
        ScriptFailure::Create(msg) => {
            let mut e = String::from_str("Failed to create script file: ");
            e.append(msg.as_str());
            e
        },
        ScriptFailure::Write(msg) => {
            let mut e = String::from_str("Failed to write script: ");
            e.append(msg.as_str());
            e
        },
        ScriptFailure::Execute(msg) => {
            let mut e = String::from_str("Failed to execute Python PoC: ");
            e.append(msg.as_str());
            e
        },
    }
}

/// The red team's challenge of a fresh block: up to three rounds in which the
/// model (or its offline stand-in) writes an exploit that is run against the
/// sandbox. The caller performs each round's outside work (asking the model,
/// writing and running the script) and hands the results to this state.
pub struct GrokDuel {
    pub vm_ip: String,
    pub attacker_ip: String,
    /// The current round, from 1.
    pub round: u32,
    /// The chat with the model so far.
    pub messages: Vec<Message>,
    /// One entry per finished round.
    pub summary: String,
    /// The trimmed outputs of the finished rounds.
    pub outputs: Ghost<Seq<Seq<char>>>,
}

/// The summary that lists the trimmed outputs of rounds 1, 2, ... in order.
pub open spec fn summary_of(outputs: Seq<Seq<char>>) -> Seq<char>
    decreases outputs.len(),
{
    if outputs.len() == 0 {
        Seq::empty()
    } else {
        summary_of(outputs.drop_last()) + round_entry(outputs.len(), outputs.last())
    }
}

/// None of the outputs says SUCCESS: every round so far was blocked.
pub open spec fn all_blocked(outputs: Seq<Seq<char>>) -> bool {
    forall|k: int| 0 <= k < outputs.len() ==> !contains(#[trigger] outputs[k], "SUCCESS"@)
}

/// What follows a round.
pub enum GrokStep {
    /// The round was blocked and another one follows.
    NextRound,
    /// The challenge is over: `Ok` when every round was blocked, `Err` when one
    /// got through.
    Done(Result<String, String>),
}

impl GrokDuel {
    /// The state of a challenge between rounds.
    pub open spec fn wf(&self) -> bool {
        &&& 1 <= self.round <= max_rounds()
        &&& self.messages@.len() == 2 * self.round
        &&& self.outputs@.len() == self.round - 1
        &&& all_blocked(self.outputs@)
        &&& self.summary@ == summary_of(self.outputs@)
    }

    /// A fresh challenge against `attacker_ip`'s block on `vm_ip`.
    pub fn new(vm_ip: &str, attacker_ip: &str) -> (d: GrokDuel)
        ensures
            d.wf(),
            d.round == 1,
            d.vm_ip@ == vm_ip@,
            d.attacker_ip@ == attacker_ip@,
            d.summary@ == Seq::<char>::empty(),
            d.outputs@ == Seq::<Seq<char>>::empty(),
            messages_view(d.messages@) == seq![
                ("system"@, red_team_prompt(vm_ip@, attacker_ip@)),
                ("user"@, red_team_opening()),
            ],
    {
        let mut prompt = String::from_str("You are Grok-3, a elite Red-Team security expert. Your target server is 'http://");
        prompt.append(vm_ip);
        prompt.append(":8089/'. The firewall has blocked your original IP address (");
        prompt.append(attacker_ip);
        prompt.append("). Your mission is to write a single Python 3 script using 'requests' library to test the firewall. You must attempt different HTTP headers (like X-Attacker-IP) or bypass strategies to see if you can access the target port 8089. Your Python script MUST print 'SUCCESS' to stdout if it gets HTTP 200 OK, and print 'BLOCKED' if it gets 403 or encounters a Connection Timeout. IMPORTANT: Output ONLY the python script enclosed in a ```python ``` markdown block. No other explanation text.");
        let mut messages: Vec<Message> = Vec::new();
        messages.push(message("system", prompt));
        messages.push(message("user", String::from_str("Generate your first exploit PoC python script to bypass the firewall.")));
        assert(messages_view(messages@) =~= seq![
            ("system"@, red_team_prompt(vm_ip@, attacker_ip@)),
            ("user"@, red_team_opening()),
        ]);
        GrokDuel {
            vm_ip: String::from_str(vm_ip),
            attacker_ip: String::from_str(attacker_ip),
            round: 1,
            messages,
            summary: String::new(),
            outputs: Ghost(Seq::empty()),
        }
    }

    /// The reply of this round: the model's when it was asked and answered
    /// (`Some(Ok(..))`), the offline red team's otherwise.
    pub fn reply(&self, model: Option<Result<String, String>>) -> (r: String)
        ensures
            r@ == match model {
                Some(Ok(reply)) => reply@,
                _ => exploit_script(self.round, self.vm_ip@, self.attacker_ip@),
            },
    {
        match model {
            Some(Ok(reply)) => reply,
            _ => mock_grok_exploit_code(self.round, self.vm_ip.as_str(), self.attacker_ip.as_str()),
        }
    }

    /// The script to run for a reply, or the error that ends the challenge when
    /// the reply carries none.
    pub fn script(&self, raw_reply: &str) -> (r: Result<String, String>)
        ensures
            result_view(r) == match python_block(raw_reply@) {
                Some(code) => Ok(code),
                None => Err(unparsable_reply(raw_reply@)),
            },
    {
        match extract_python_code(raw_reply) {
            Some(code) => Ok(code),
            None => {
                let mut e = String::from_str("[Grok-3] Failed to parse python code block from Grok response: ");
                e.append(raw_reply);
                Err(e)
            },
        }
    }

    /// Records the output of this round's script: the trimmed output joins the
    /// summary; an output that says SUCCESS ends the challenge with the bypass
    /// verdict; otherwise the reply and a retry request join the chat, and the
    /// next round follows, or, after the third, the challenge ends defended.
    /// So the defended verdict comes only after exactly three rounds, none of
    /// which said SUCCESS, and its summary lists their outputs in order.
    #[verifier::spinoff_prover]
    pub fn record_run(&mut self, raw_reply: String, output: &str) -> (step: GrokStep)
        requires
            old(self).wf(),
        ensures
            final(self).vm_ip == old(self).vm_ip,
            final(self).attacker_ip == old(self).attacker_ip,
            final(self).summary@ == old(self).summary@ + round_entry(
                old(self).round as nat,
                trim(output@),
            ),
            final(self).outputs@ == old(self).outputs@.push(trim(output@)),
            final(self).summary@ == summary_of(final(self).outputs@),
            contains(trim(output@), "SUCCESS"@) ==> {
                &&& (step matches GrokStep::Done(Err(e)) && e@ == bypass_verdict(old(self).round as nat))
                &&& final(self).round == old(self).round
                &&& final(self).messages == old(self).messages
            },
            !contains(trim(output@), "SUCCESS"@) ==> {
                &&& messages_view(final(self).messages@) == messages_view(old(self).messages@)
                    + seq![
                    ("assistant"@, raw_reply@),
                    ("user"@, red_team_retry(old(self).round as nat)),
                ]
                &&& old(self).round < max_rounds() ==> (step is NextRound && final(self).round
                    == old(self).round + 1 && final(self).wf())
                &&& old(self).round == max_rounds() ==> (step matches GrokStep::Done(Ok(v)) && v@
                    == defended_verdict(final(self).summary@) && final(self).outputs@.len()
                    == max_rounds())
                &&& all_blocked(final(self).outputs@)
            },
    {
        let out = trimmed(output);
        let round = self.round;
        let ghost old_outputs = self.outputs@;
        proof {
            self.outputs = Ghost(old_outputs.push(trim(output@)));
            assert(self.outputs@.drop_last() =~= old_outputs);
        }
        self.summary.append("[Round ");
        push_decimal(&mut self.summary, round as u64);
        self.summary.append(": ");
        self.summary.append(out.as_str());
        self.summary.append("] ");
        let out_chars = chars_of(out.as_str());
        let success = chars_of("SUCCESS");
        if contains_chars(&out_chars, &success) {
            let mut e = String::from_str("[Grok-3] Bypass SUCCESSFUL on round ");
            push_decimal(&mut e, round as u64);
            e.append("! Attack bypassed the firewall rules. Defense configuration has vulnerabilities.");
            return GrokStep::Done(Err(e));
        }
        proof {
            assert forall|k: int| 0 <= k < self.outputs@.len() implies !contains(
                #[trigger] self.outputs@[k],
                "SUCCESS"@,
            ) by {
                if k < old_outputs.len() {
                    assert(self.outputs@[k] == old_outputs[k]);
                }
            }
            assert(self.outputs@.len() == old_outputs.len() + 1);
        }
        let ghost before = self.messages@;
        self.messages.push(message("assistant", raw_reply));
        let mut retry = String::from_str("Your PoC in round ");
        push_decimal(&mut retry, round as u64);
        retry.append(" was BLOCKED. Please refine your Python script to try a different evasion headers (e.g. X-Attacker-IP bypass or custom header) to bypass the firewall.");
        self.messages.push(message("user", retry));
        assert(messages_view(self.messages@) =~= messages_view(before) + seq![
            ("assistant"@, raw_reply@),
            ("user"@, red_team_retry(round as nat)),
        ]);
        if round < 3 {
            self.round = round + 1;
            GrokStep::NextRound
        } else {
            let mut v = String::from_str("Grok-3 completed 3 rounds of dynamic evasion but all attacks were BLOCKED by VM kernel PF Firewall. (Test Run: ");
            v.append(trimmed(self.summary.as_str()).as_str());
            v.append("). Defense verified successfully!");
            GrokStep::Done(Ok(v))
        }
    }
}


// ---------------------------------------------------------------------------
// Repository healing
// ---------------------------------------------------------------------------

/// The line that records a block in the blacklist of the dotfiles repository.
pub open spec fn blacklist_record_spec(ip: Seq<char>, timestamp: nat) -> Seq<char> {
    "blocked_ip: "@ + ip + " (timestamp: "@ + decimal(timestamp) + ")\n"@
}

/// Builds the blacklist line for `ip`, blocked at `timestamp` (Unix seconds).
pub fn blacklist_record(ip: &str, timestamp: u64) -> (r: String)
    ensures
        r@ == blacklist_record_spec(ip@, timestamp as nat),
{
    let mut r = String::from_str("blocked_ip: ");
    r.append(ip);
    r.append(" (timestamp: ");
    push_decimal(&mut r, timestamp);
    r.append(")\n");
    r
}

/// The step that the healing of the dotfiles repository waits on.
#[derive(PartialEq, Eq, Structural, Clone, Copy, Debug)]
pub enum HealStage {
    /// `git branch --show-current`.
    CheckBranch,
    /// `git pull origin master --rebase`.
    Pull,
    /// Appending the record to the blacklist file.
    Record,
    /// `git add starshield_blacklist.txt`.
    Stage,
    /// `git diff-index --quiet HEAD`.
    Diff,
    /// `git commit`.
    Commit,
    /// `git push origin master`.
    Push,
    /// Nothing: the healing is over.
    Finished,
}

/// What the caller does next for the healing.
pub enum HealAction {
    /// Run git with these arguments in the repository; report with `on_git`.
    Git(Vec<String>),
    /// Append `blacklist_record(ip, now)` to the blacklist file; report with
    /// `on_recorded`.
    AppendRecord,
    /// Run `git diff-index --quiet HEAD`; report with `on_diff`.
    CheckDiff,
    /// The healing is over, with this result.
    Finish(Result<String, String>),
}

/// How appending the record to the blacklist ended.
pub enum RecordOutcome {
    Written,
    /// The file could not be opened, with the error's text.
    OpenFailed(String),
    /// The line could not be written, with the error's text.
    WriteFailed(String),
}

/// The git arguments that a stage runs.
pub open spec fn git_args_for(stage: HealStage, ip: Seq<char>) -> Seq<Seq<char>> {
    match stage {
        HealStage::CheckBranch => seq!["branch"@, "--show-current"@],
        HealStage::Pull => seq!["pull"@, "origin"@, "master"@, "--rebase"@],
        HealStage::Stage => seq!["add"@, "starshield_blacklist.txt"@],
        HealStage::Commit => seq!["commit"@, "-m"@, "security(starshield): auto-block malicious ip "@ + ip],
        HealStage::Push => seq!["push"@, "origin"@, "master"@],
        _ => seq![],
    }
}

/// `action` asks for what `stage` waits on.
pub open spec fn action_fits(action: HealAction, stage: HealStage, ip: Seq<char>) -> bool {
    match action {
        HealAction::Git(args) => stage != HealStage::Record && stage != HealStage::Diff && stage
            != HealStage::Finished && strings_view(args@) == git_args_for(stage, ip),
        HealAction::AppendRecord => stage == HealStage::Record,
        HealAction::CheckDiff => stage == HealStage::Diff,
        HealAction::Finish(_) => stage == HealStage::Finished,
    }
}

/// The healing of the dotfiles repository after a block held: on branch master,
/// pull, append a record of the block to the blacklist, stage it, and commit
/// and push it when the index differs from HEAD.
pub struct DotfilesHeal {
    pub attacker_ip: String,
    pub stage: HealStage,
}

impl DotfilesHeal {
    /// The healing for a block of `attacker_ip`, and its first action.
    pub fn new(attacker_ip: &str) -> (r: (DotfilesHeal, HealAction))
        ensures
            r.0.attacker_ip@ == attacker_ip@,
            r.0.stage == HealStage::CheckBranch,
            action_fits(r.1, r.0.stage, attacker_ip@),
    {
        let heal = DotfilesHeal { attacker_ip: String::from_str(attacker_ip), stage: HealStage::CheckBranch };
        let action = heal.git_action();
        (heal, action)
    }

    fn git_action(&self) -> (a: HealAction)
        requires
            self.stage != HealStage::Record,
            self.stage != HealStage::Diff,
            self.stage != HealStage::Finished,
        ensures
            action_fits(a, self.stage, self.attacker_ip@),
    {
        let mut args: Vec<String> = Vec::new();
        match self.stage {
            HealStage::CheckBranch => {
                args.push(String::from_str("branch"));
                args.push(String::from_str("--show-current"));
            },
            HealStage::Pull => {
                args.push(String::from_str("pull"));
                args.push(String::from_str("origin"));
                args.push(String::from_str("master"));
                args.push(String::from_str("--rebase"));
            },
            HealStage::Stage => {
                args.push(String::from_str("add"));
                args.push(String::from_str("starshield_blacklist.txt"));
            },
            HealStage::Commit => {
                let mut msg = String::from_str("security(starshield): auto-block malicious ip ");
                msg.append(self.attacker_ip.as_str());
                args.push(String::from_str("commit"));
                args.push(String::from_str("-m"));
                args.push(msg);
            },
            _ => {
                args.push(String::from_str("push"));
                args.push(String::from_str("origin"));
                args.push(String::from_str("master"));
            },
        }
        assert(strings_view(args@) =~= git_args_for(self.stage, self.attacker_ip@));
        HealAction::Git(args)
    }

    /// Takes the result of the git call that the current stage asked for (its
    /// output, or the error of `git_outcome`). An error ends the healing with
    /// it. A branch other than master (after trimming) ends it with an error that
    /// names the branch. Otherwise the healing moves to the next stage, and a
    /// finished push ends it with success.
    pub fn on_git(&mut self, result: Result<String, String>) -> (a: HealAction)
        requires
            old(self).stage == HealStage::CheckBranch || old(self).stage == HealStage::Pull
                || old(self).stage == HealStage::Stage || old(self).stage == HealStage::Commit
                || old(self).stage == HealStage::Push,
        ensures
            final(self).attacker_ip == old(self).attacker_ip,
            action_fits(a, final(self).stage, final(self).attacker_ip@),
            match result {
                Err(e) => final(self).stage == HealStage::Finished && (a matches HealAction::Finish(Err(m)) && m@ == e@),
                Ok(out) => match old(self).stage {
                    HealStage::CheckBranch => if trim(out@) == "master"@ {
                        final(self).stage == HealStage::Pull
                    } else {
                        final(self).stage == HealStage::Finished && (a matches HealAction::Finish(Err(m)) && m@
                            == "Dotfiles-dev is not on branch master. Current: '"@ + trim(out@) + "'"@)
                    },
                    HealStage::Pull => final(self).stage == HealStage::Record,
                    HealStage::Stage => final(self).stage == HealStage::Diff,
                    HealStage::Commit => final(self).stage == HealStage::Push,
                    _ => final(self).stage == HealStage::Finished && (a matches HealAction::Finish(Ok(m))
                        && m@ == "Dotfiles configuration successfully healed and pushed to origin master!"@),
                },
            },
    {
        match result {
            Err(e) => {
                self.stage = HealStage::Finished;
                HealAction::Finish(Err(e))
            },
            Ok(out) => {
                match self.stage {
                    HealStage::CheckBranch => {
                        let branch = trimmed(out.as_str());
                        if branch == String::from_str("master") {
                            self.stage = HealStage::Pull;
                            self.git_action()
                        } else {
                            self.stage = HealStage::Finished;
                            let mut e = String::from_str("Dotfiles-dev is not on branch master. Current: '");
                            e.append(branch.as_str());
                            e.append("'");
                            HealAction::Finish(Err(e))
                        }
                    },
                    HealStage::Pull => {
                        self.stage = HealStage::Record;
                        HealAction::AppendRecord
                    },
                    HealStage::Stage => {
                        self.stage = HealStage::Diff;
                        HealAction::CheckDiff
                    },
                    HealStage::Commit => {
                        self.stage = HealStage::Push;
                        self.git_action()
                    },
                    _ => {
                        self.stage = HealStage::Finished;
                        HealAction::Finish(Ok(String::from_str("Dotfiles configuration successfully healed and pushed to origin master!")))
                    },
                }
            },
        }
    }

    /// Takes how appending the record ended: written, the record is staged
    /// next; otherwise the healing ends with the error.
    pub fn on_recorded(&mut self, outcome: RecordOutcome) -> (a: HealAction)
        requires
            old(self).stage == HealStage::Record,
        ensures
            final(self).attacker_ip == old(self).attacker_ip,
            action_fits(a, final(self).stage, final(self).attacker_ip@),
            match outcome {
                RecordOutcome::Written => final(self).stage == HealStage::Stage,
                RecordOutcome::OpenFailed(e) => final(self).stage == HealStage::Finished && (a matches HealAction::Finish(Err(m))
                    && m@ == "Failed to open Dotfiles blacklist file: "@ + e@),
                RecordOutcome::WriteFailed(e) => final(self).stage == HealStage::Finished && (a matches HealAction::Finish(Err(m))
                    && m@ == "Failed to write to blacklist: "@ + e@),
            },
    {
        match outcome {
            RecordOutcome::Written => {
                self.stage = HealStage::Stage;
                self.git_action()
            },
            RecordOutcome::OpenFailed(msg) => {
                self.stage = HealStage::Finished;
                let mut e = String::from_str("Failed to open Dotfiles blacklist file: ");
                e.append(msg.as_str());
                HealAction::Finish(Err(e))
            },
            RecordOutcome::WriteFailed(msg) => {
                self.stage = HealStage::Finished;
                let mut e = String::from_str("Failed to write to blacklist: ");
                e.append(msg.as_str());
                HealAction::Finish(Err(e))
            },
        }
    }

    /// Takes whether `git diff-index --quiet HEAD` exited with success (`Ok`),
    /// or the error that kept it from running. Success means that nothing is
    /// staged, and the healing ends without a commit; a failure status leads
    /// to the commit; an error ends the healing with it.
    pub fn on_diff(&mut self, status: Result<bool, String>) -> (a: HealAction)
        requires
            old(self).stage == HealStage::Diff,
        ensures
            final(self).attacker_ip == old(self).attacker_ip,
            action_fits(a, final(self).stage, final(self).attacker_ip@),
            match status {
                Ok(true) => final(self).stage == HealStage::Finished && (a matches HealAction::Finish(Ok(m))
                    && m@ == "No changes to push, Dotfiles repository is already clean."@),
                Ok(false) => final(self).stage == HealStage::Commit,
                Err(e) => final(self).stage == HealStage::Finished && (a matches HealAction::Finish(Err(m))
                    && m@ == "Failed to verify diff status: "@ + e@),
            },
    {
        match status {
            Ok(true) => {
                self.stage = HealStage::Finished;
                HealAction::Finish(Ok(String::from_str("No changes to push, Dotfiles repository is already clean.")))
            },
            Ok(false) => {
                self.stage = HealStage::Commit;
                self.git_action()
            },
            Err(msg) => {
                self.stage = HealStage::Finished;
                let mut e = String::from_str("Failed to verify diff status: ");
                e.append(msg.as_str());
                HealAction::Finish(Err(e))
            },
        }
    }
}

} // verus!
