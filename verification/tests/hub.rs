use starshield::agents::mock_antigravity_analyze;
use starshield::hub::{
    mock_extract_ip, resolve_decision, AlertAction, AlertFlow, AlertStage, AntigravityDecision,
};

fn respond(a: AlertAction) -> (String, String) {
    match a {
        AlertAction::Respond(r) => (r.status, r.message),
        _ => panic!("expected an answer"),
    }
}

#[test]
fn fallback_parser_reads_json_words() {
    assert_eq!(mock_extract_ip("{\"attacker_ip\": \"5.6.7.8\", \"reason\": \"x\"}"), "5.6.7.8");
    assert_eq!(mock_extract_ip("block {1.2.3.4}, please"), "1.2.3.4");
    assert_eq!(mock_extract_ip("nothing to see"), "10.211.55.100");
}

#[test]
fn fallback_parser_reads_offline_verdicts() {
    for line in [
        "[203.0.113.9] exploit",
        "no address at all",
        "x \"1.2.3.4\", y",
        "a 1..2.3 b",
    ] {
        let verdict = mock_antigravity_analyze(line);
        let ip_start = "{\"attacker_ip\": \"".len();
        let ip_end = verdict.find("\", \"reason\"").unwrap();
        assert_eq!(mock_extract_ip(&verdict), &verdict[ip_start..ip_end]);
    }
}

#[test]
fn decision_prefers_parsed_verdict() {
    let parsed = AntigravityDecision { attacker_ip: "1.1.1.1".to_string(), reason: "r".to_string() };
    let d = resolve_decision(Some(parsed), "ignored 2.2.2.2");
    assert_eq!(d.attacker_ip, "1.1.1.1");
    assert_eq!(d.reason, "r");
    let d = resolve_decision(None, "Block 'attacker': 3.3.3.3 now");
    assert_eq!(d.attacker_ip, "3.3.3.3");
    assert_eq!(d.reason, "Fallback parser: extracted target IP directly from raw response.");
}

#[test]
fn alert_runs_all_steps_when_block_holds() {
    let (mut flow, first) = AlertFlow::new("6.6.6.6");
    match first {
        AlertAction::Defend(cmd) => assert!(cmd.starts_with("sudo pfctl -t blocked_ips -T add 6.6.6.6 &&")),
        _ => panic!("expected the defence first"),
    }
    assert!(matches!(flow.on_defense(Ok(" blocked \n".to_string())), AlertAction::Challenge));
    assert!(matches!(flow.on_challenge(Ok("held\n".to_string())), AlertAction::Heal));
    let (status, message) = respond(flow.on_heal(Ok("pushed ".to_string())));
    assert_eq!(status, "processed");
    assert_eq!(
        message,
        "[Codex Success] blocked; [Grok-3 Verified] held; [Auto-Heal Success] pushed"
    );
    assert_eq!(flow.stage, AlertStage::Answered);
}

#[test]
fn alert_skips_healing_after_bypass() {
    let (mut flow, _) = AlertFlow::new("6.6.6.6");
    flow.on_defense(Ok("ok".to_string()));
    let (_, message) = respond(flow.on_challenge(Err(" bypassed \n".to_string())));
    assert_eq!(message, "[Codex Success] ok; [Grok-3 Challenge Failed] bypassed");
}

#[test]
fn alert_stops_when_defense_fails() {
    let (mut flow, _) = AlertFlow::new("6.6.6.6");
    let (status, message) = respond(flow.on_defense(Err("Exit code 1. Stderr: x ".to_string())));
    assert_eq!(status, "processed");
    assert_eq!(message, "[Codex Failed] Exit code 1. Stderr: x ");
}

#[test]
fn alert_reports_failed_healing() {
    let (mut flow, _) = AlertFlow::new("6.6.6.6");
    flow.on_defense(Ok("a".to_string()));
    flow.on_challenge(Ok("b".to_string()));
    let (_, message) = respond(flow.on_heal(Err("\nno repo\n".to_string())));
    assert_eq!(message, "[Codex Success] a; [Grok-3 Verified] b; [Auto-Heal Failed] no repo");
}

#[test]
fn fallback_parser_strips_braces_the_analyst_keeps() {
    let verdict = mock_antigravity_analyze("from {1.2.3.4} exploit");
    assert!(verdict.contains("\"{1.2.3.4}\""));
    assert_eq!(mock_extract_ip(&verdict), "1.2.3.4");
}
