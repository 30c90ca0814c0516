use starshield::agents::{
    antigravity_conclude, antigravity_messages, blacklist_record, codex_defense_command,
    extract_python_code, git_outcome, llm_outcome, message, mock_antigravity_analyze,
    mock_grok_exploit_code, script_failure_message, ssh_args, ssh_outcome, DotfilesHeal, GrokDuel, GrokStep, HealAction,
    HealStage, LlmReply, ProcessReport, RecordOutcome, ScriptFailure,
};
use starshield::config::AppConfig;

fn config() -> AppConfig {
    AppConfig::from_env_values(None, None, None, None, None, None)
}

fn git_args(a: &HealAction) -> Vec<String> {
    match a {
        HealAction::Git(args) => args.clone(),
        _ => panic!("expected a git call"),
    }
}

#[test]
fn extracts_fenced_python_block() {
    let reply = "Here you go:\n```python\n  import requests\nprint('x')\n```\nGood luck";
    assert_eq!(
        extract_python_code(reply),
        Some("import requests\nprint('x')".to_string())
    );
}

#[test]
fn extracts_first_block_up_to_next_fence() {
    let reply = "```python\na = 1\n```\n```python\nb = 2\n```";
    assert_eq!(extract_python_code(reply), Some("a = 1".to_string()));
}

#[test]
fn unclosed_block_falls_back_to_whole_reply_with_requests() {
    let reply = "  ```python\nimport requests\nprint(1)\n";
    assert_eq!(
        extract_python_code(reply),
        Some("```python\nimport requests\nprint(1)".to_string())
    );
}

#[test]
fn bare_script_with_requests_is_taken_whole() {
    assert_eq!(
        extract_python_code("\nimport requests\nrequests.get('x')\n\n"),
        Some("import requests\nrequests.get('x')".to_string())
    );
}

#[test]
fn reply_without_code_gives_none() {
    assert_eq!(extract_python_code("I refuse."), None);
    assert_eq!(extract_python_code("```python\nprint(1)"), None);
}

#[test]
fn extracted_code_is_already_trimmed() {
    let code = extract_python_code("```python\n\t x = 1 \n```").unwrap();
    assert_eq!(code, "x = 1");
    assert_eq!(code.trim(), code);
}

#[test]
fn offline_analyst_names_first_dotted_word() {
    assert_eq!(
        mock_antigravity_analyze("[203.0.113.9] GET /admin-bypass from 198.51.100.1"),
        "{\"attacker_ip\": \"203.0.113.9\", \"reason\": \"Detected malicious scanner traffic matching pattern in log.\"}"
    );
}

#[test]
fn offline_analyst_strips_log_punctuation() {
    assert_eq!(
        mock_antigravity_analyze("client says \"9.9.9.9\", not client:'1.2.3.4'"),
        "{\"attacker_ip\": \"9.9.9.9\", \"reason\": \"Detected malicious scanner traffic matching pattern in log.\"}"
    );
}

#[test]
fn offline_analyst_falls_back_without_address() {
    assert_eq!(
        mock_antigravity_analyze("exploit attempt from 1.2.3 and a.b.c.d.e"),
        "{\"attacker_ip\": \"10.211.55.100\", \"reason\": \"Detected malicious scanner traffic matching pattern in log.\"}"
    );
}

#[test]
fn analyst_chat_has_prompt_and_line() {
    let ms = antigravity_messages("line one");
    assert_eq!(ms.len(), 2);
    assert_eq!(ms[0].role, "system");
    assert!(ms[0].content.starts_with("You are Antigravity, the Chief AI Architect."));
    assert_eq!(ms[1].role, "user");
    assert_eq!(ms[1].content, "line one");
}

#[test]
fn analyst_conclusion_prefers_model_reply() {
    assert_eq!(
        antigravity_conclude(Some(Ok("{\"attacker_ip\": \"1.1.1.1\"}".to_string())), "x 2.2.2.2"),
        "{\"attacker_ip\": \"1.1.1.1\"}"
    );
    assert_eq!(
        antigravity_conclude(Some(Err("down".to_string())), "x 2.2.2.2"),
        mock_antigravity_analyze("x 2.2.2.2")
    );
    assert_eq!(antigravity_conclude(None, "x 2.2.2.2"), mock_antigravity_analyze("x 2.2.2.2"));
}

#[test]
fn defense_command_blocks_attacker_and_host() {
    assert_eq!(
        codex_defense_command("6.6.6.6"),
        "sudo pfctl -t blocked_ips -T add 6.6.6.6 && sudo pfctl -t blocked_ips -T add 10.211.55.2 && echo '[Codex] Attacker IP and Host IP successfully blocked in macOS kernel Packet Filter (PF).'"
    );
}

#[test]
fn ssh_arguments() {
    assert_eq!(
        ssh_args(&config(), "uptime"),
        vec![
            "-o",
            "StrictHostKeyChecking=no",
            "-o",
            "IdentitiesOnly=yes",
            "-i",
            "/Users/huangxin/.ssh/id_ed25519",
            "samhuang@10.211.55.4",
            "uptime"
        ]
    );
}

#[test]
fn ssh_outcomes() {
    let ok = ProcessReport::Finished {
        success: true,
        code: Some(0),
        stdout: "done\n".to_string(),
        stderr: String::new(),
    };
    assert_eq!(ssh_outcome(ok), Ok("done\n".to_string()));
    let failed = ProcessReport::Finished {
        success: false,
        code: Some(255),
        stdout: String::new(),
        stderr: "denied".to_string(),
    };
    assert_eq!(ssh_outcome(failed), Err("Exit code 255. Stderr: denied".to_string()));
    let killed = ProcessReport::Finished {
        success: false,
        code: None,
        stdout: String::new(),
        stderr: "".to_string(),
    };
    assert_eq!(ssh_outcome(killed), Err("Exit code -1. Stderr: ".to_string()));
    let negative = ProcessReport::Finished {
        success: false,
        code: Some(i32::MIN),
        stdout: String::new(),
        stderr: "x".to_string(),
    };
    assert_eq!(ssh_outcome(negative), Err("Exit code -2147483648. Stderr: x".to_string()));
    assert_eq!(
        ssh_outcome(ProcessReport::SpawnFailed("not found".to_string())),
        Err("Failed to spawn SSH process: not found".to_string())
    );
}

#[test]
fn git_outcomes() {
    let failed = ProcessReport::Finished {
        success: false,
        code: Some(1),
        stdout: "  out \n".to_string(),
        stderr: "\nerr  ".to_string(),
    };
    assert_eq!(git_outcome(failed), Err("Git error. Stdout: out. Stderr: err".to_string()));
    assert_eq!(
        git_outcome(ProcessReport::SpawnFailed("no git".to_string())),
        Err("Failed to spawn git process: no git".to_string())
    );
    let ok = ProcessReport::Finished {
        success: true,
        code: Some(0),
        stdout: "dev\n".to_string(),
        stderr: String::new(),
    };
    assert_eq!(git_outcome(ok), Ok("dev\n".to_string()));
}

#[test]
fn llm_outcomes() {
    let ms = vec![message("assistant", "first".to_string()), message("assistant", "second".to_string())];
    assert_eq!(llm_outcome(LlmReply::Choices(ms)), Ok("first".to_string()));
    assert_eq!(
        llm_outcome(LlmReply::Choices(vec![])),
        Err("LLM returned empty choices".to_string())
    );
    assert_eq!(
        llm_outcome(LlmReply::UnreadableBody("eof".to_string())),
        Err("Failed to parse JSON response: eof".to_string())
    );
    assert_eq!(
        llm_outcome(LlmReply::ErrorStatus {
            status: "401 Unauthorized".to_string(),
            body: "bad key".to_string()
        }),
        Err("LLM API returned error code 401 Unauthorized: bad key".to_string())
    );
    assert_eq!(
        llm_outcome(LlmReply::RequestFailed("timeout".to_string())),
        Err("HTTP request failed: timeout".to_string())
    );
}

const TAIL: &str = ":8089/', headers=headers, timeout=2)\n    if res.status_code == 200:\n        print('SUCCESS')\n    else:\n        print('BLOCKED')\nexcept Exception:\n    print('BLOCKED')\n```";

#[test]
fn offline_exploit_scripts() {
    let first = mock_grok_exploit_code(1, "10.211.55.4", "6.6.6.6");
    let expected = format!(
        "```python\nimport requests\ntry:\n    headers = {{'X-Attacker-IP': '6.6.6.6'}}\n    res = requests.get('http://10.211.55.4{}",
        TAIL
    );
    assert_eq!(first, expected);
    assert_eq!(mock_grok_exploit_code(2, "10.211.55.4", "6.6.6.6"), expected);
    let third = format!(
        "```python\nimport requests\ntry:\n    headers = {{'X-Attacker-IP': '1.1.1.1'}}\n    res = requests.get('http://10.211.55.4{}",
        TAIL
    );
    assert_eq!(mock_grok_exploit_code(3, "10.211.55.4", "6.6.6.6"), third);
    assert_eq!(mock_grok_exploit_code(0, "10.211.55.4", "6.6.6.6"), third);
    assert_eq!(
        extract_python_code(&first).unwrap(),
        first.trim_start_matches("```python").trim_end_matches("```").trim()
    );
}

#[test]
fn red_team_challenge_defended_after_three_rounds() {
    let mut duel = GrokDuel::new("10.0.0.5", "6.6.6.6");
    assert_eq!(duel.round, 1);
    assert_eq!(duel.messages.len(), 2);
    assert!(duel.messages[0].content.contains("'http://10.0.0.5:8089/'"));
    assert!(duel.messages[0].content.contains("original IP address (6.6.6.6)"));
    assert_eq!(
        duel.messages[1].content,
        "Generate your first exploit PoC python script to bypass the firewall."
    );
    for round in 1..=2u32 {
        let raw = duel.reply(None);
        assert_eq!(raw, mock_grok_exploit_code(round, "10.0.0.5", "6.6.6.6"));
        assert!(duel.script(&raw).is_ok());
        assert!(matches!(duel.record_run(raw, "BLOCKED\n"), GrokStep::NextRound));
        assert_eq!(duel.round, round + 1);
    }
    assert_eq!(duel.messages.len(), 6);
    assert_eq!(duel.messages[4].role, "assistant");
    assert_eq!(
        duel.messages[5].content,
        "Your PoC in round 2 was BLOCKED. Please refine your Python script to try a different evasion headers (e.g. X-Attacker-IP bypass or custom header) to bypass the firewall."
    );
    let raw = duel.reply(Some(Ok("```python\nprint('BLOCKED')\n```".to_string())));
    assert_eq!(duel.script(&raw), Ok("print('BLOCKED')".to_string()));
    match duel.record_run(raw, " BLOCKED ") {
        GrokStep::Done(Ok(v)) => assert_eq!(
            v,
            "Grok-3 completed 3 rounds of dynamic evasion but all attacks were BLOCKED by VM kernel PF Firewall. (Test Run: [Round 1: BLOCKED] [Round 2: BLOCKED] [Round 3: BLOCKED]). Defense verified successfully!"
        ),
        _ => panic!("expected the defended verdict"),
    }
}

#[test]
fn red_team_bypass_ends_challenge() {
    let mut duel = GrokDuel::new("10.0.0.5", "6.6.6.6");
    let raw = duel.reply(Some(Err("api down".to_string())));
    assert_eq!(raw, mock_grok_exploit_code(1, "10.0.0.5", "6.6.6.6"));
    match duel.record_run(raw, "xx SUCCESS\n") {
        GrokStep::Done(Err(e)) => assert_eq!(
            e,
            "[Grok-3] Bypass SUCCESSFUL on round 1! Attack bypassed the firewall rules. Defense configuration has vulnerabilities."
        ),
        _ => panic!("expected the bypass verdict"),
    }
    assert_eq!(duel.summary, "[Round 1: xx SUCCESS] ");
    assert_eq!(duel.messages.len(), 2);
}

#[test]
fn red_team_reply_without_code_is_an_error() {
    let duel = GrokDuel::new("10.0.0.5", "6.6.6.6");
    assert_eq!(
        duel.script("no code"),
        Err("[Grok-3] Failed to parse python code block from Grok response: no code".to_string())
    );
}

#[test]
fn blacklist_line() {
    assert_eq!(
        blacklist_record("6.6.6.6", 1700000000),
        "blocked_ip: 6.6.6.6 (timestamp: 1700000000)\n"
    );
    assert_eq!(blacklist_record("x", 0), "blocked_ip: x (timestamp: 0)\n");
}

#[test]
fn healing_commits_and_pushes_changes() {
    let (mut heal, a) = DotfilesHeal::new("6.6.6.6");
    assert_eq!(git_args(&a), vec!["branch", "--show-current"]);
    let a = heal.on_git(Ok("master\n".to_string()));
    assert_eq!(git_args(&a), vec!["pull", "origin", "master", "--rebase"]);
    let a = heal.on_git(Ok(String::new()));
    assert!(matches!(a, HealAction::AppendRecord));
    let a = heal.on_recorded(RecordOutcome::Written);
    assert_eq!(git_args(&a), vec!["add", "starshield_blacklist.txt"]);
    let a = heal.on_git(Ok(String::new()));
    assert!(matches!(a, HealAction::CheckDiff));
    let a = heal.on_diff(Ok(false));
    assert_eq!(
        git_args(&a),
        vec!["commit", "-m", "security(starshield): auto-block malicious ip 6.6.6.6"]
    );
    let a = heal.on_git(Ok(String::new()));
    assert_eq!(git_args(&a), vec!["push", "origin", "master"]);
    match heal.on_git(Ok(String::new())) {
        HealAction::Finish(Ok(m)) => {
            assert_eq!(m, "Dotfiles configuration successfully healed and pushed to origin master!")
        },
        _ => panic!("expected success"),
    }
    assert_eq!(heal.stage, HealStage::Finished);
}

#[test]
fn healing_without_changes_stops_before_commit() {
    let (mut heal, _) = DotfilesHeal::new("6.6.6.6");
    heal.on_git(Ok("master".to_string()));
    heal.on_git(Ok(String::new()));
    heal.on_recorded(RecordOutcome::Written);
    heal.on_git(Ok(String::new()));
    match heal.on_diff(Ok(true)) {
        HealAction::Finish(Ok(m)) => {
            assert_eq!(m, "No changes to push, Dotfiles repository is already clean.")
        },
        _ => panic!("expected a clean finish"),
    }
}

#[test]
fn healing_refuses_other_branch() {
    let (mut heal, _) = DotfilesHeal::new("6.6.6.6");
    match heal.on_git(Ok(" main \n".to_string())) {
        HealAction::Finish(Err(e)) => {
            assert_eq!(e, "Dotfiles-dev is not on branch master. Current: 'main'")
        },
        _ => panic!("expected an error"),
    }
}

#[test]
fn healing_errors_end_it() {
    let (mut heal, _) = DotfilesHeal::new("6.6.6.6");
    match heal.on_git(Err("Git error. Stdout: . Stderr: fatal".to_string())) {
        HealAction::Finish(Err(e)) => assert_eq!(e, "Git error. Stdout: . Stderr: fatal"),
        _ => panic!("expected an error"),
    }
    let (mut heal, _) = DotfilesHeal::new("6.6.6.6");
    heal.on_git(Ok("master".to_string()));
    heal.on_git(Ok(String::new()));
    match heal.on_recorded(RecordOutcome::OpenFailed("denied".to_string())) {
        HealAction::Finish(Err(e)) => assert_eq!(e, "Failed to open Dotfiles blacklist file: denied"),
        _ => panic!("expected an error"),
    }
    let (mut heal, _) = DotfilesHeal::new("6.6.6.6");
    heal.on_git(Ok("master".to_string()));
    heal.on_git(Ok(String::new()));
    match heal.on_recorded(RecordOutcome::WriteFailed("full".to_string())) {
        HealAction::Finish(Err(e)) => assert_eq!(e, "Failed to write to blacklist: full"),
        _ => panic!("expected an error"),
    }
    let (mut heal, _) = DotfilesHeal::new("6.6.6.6");
    heal.on_git(Ok("master".to_string()));
    heal.on_git(Ok(String::new()));
    heal.on_recorded(RecordOutcome::Written);
    heal.on_git(Ok(String::new()));
    match heal.on_diff(Err("no git".to_string())) {
        HealAction::Finish(Err(e)) => assert_eq!(e, "Failed to verify diff status: no git"),
        _ => panic!("expected an error"),
    }
}

#[test]
fn script_failures() {
    assert_eq!(
        script_failure_message(ScriptFailure::Create("denied".to_string())),
        "Failed to create script file: denied"
    );
    assert_eq!(
        script_failure_message(ScriptFailure::Write("full".to_string())),
        "Failed to write script: full"
    );
    assert_eq!(
        script_failure_message(ScriptFailure::Execute("no python3".to_string())),
        "Failed to execute Python PoC: no python3"
    );
}

#[test]
fn healing_refuses_dev_branch() {
    let (mut heal, _) = DotfilesHeal::new("6.6.6.6");
    match heal.on_git(Ok("dev\n".to_string())) {
        HealAction::Finish(Err(e)) => {
            assert_eq!(e, "Dotfiles-dev is not on branch master. Current: 'dev'")
        },
        _ => panic!("expected an error"),
    }
}
