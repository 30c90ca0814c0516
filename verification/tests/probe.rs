use starshield::probe::{check_malicious_activity, has_threat_keyword, threat_lines, ProbeAction, ProbeCursor};

#[test]
fn signatures_are_matched_case_insensitively() {
    assert!(check_malicious_activity("GET /?q=SQL-Injection HTTP/1.1"));
    assert!(check_malicious_activity("MALICIOUS-SCAN detected"));
    assert!(check_malicious_activity("probe for CVE-2024-1234"));
    assert!(check_malicious_activity("Exploit kit"));
    assert!(check_malicious_activity("ADMIN-BYPASS"));
    assert!(!check_malicious_activity("GET /index.html 200"));
    assert!(!check_malicious_activity("cve 2024"));
}

#[test]
fn keywords_need_lowercase_input() {
    assert!(has_threat_keyword("exploit"));
    assert!(!has_threat_keyword("EXPLOIT"));
    assert!(!has_threat_keyword(""));
}

#[test]
fn reports_threat_lines_of_a_chunk() {
    let text = "ok line\r\nexploit here\r\n\n   \nCVE-1\r";
    assert_eq!(threat_lines(text), vec!["exploit here".to_string(), "CVE-1\r".to_string()]);
    assert_eq!(threat_lines(""), Vec::<String>::new());
    assert_eq!(threat_lines("\n\n"), Vec::<String>::new());
    assert_eq!(threat_lines("sql-injection"), vec!["sql-injection".to_string()]);
}

#[test]
fn threat_lines_agree_with_std_lines() {
    let text = "a exploit\r\r\nb\n exploit \n\rexploit\n";
    let expected: Vec<String> = text
        .lines()
        .filter(|l| !l.trim().is_empty() && check_malicious_activity(l))
        .map(|l| l.to_string())
        .collect();
    assert_eq!(threat_lines(text), expected);
}

#[test]
fn cursor_reads_only_appended_bytes() {
    let mut c = ProbeCursor::at(100);
    assert_eq!(c.on_length(100), ProbeAction::Wait);
    assert_eq!(c.on_length(150), ProbeAction::ReadFrom(100));
    c.on_read(50);
    assert_eq!(c.last_pos, 150);
    assert_eq!(c.on_length(150), ProbeAction::Wait);
}

#[test]
fn cursor_restarts_after_truncation() {
    let mut c = ProbeCursor::at(150);
    assert_eq!(c.on_length(10), ProbeAction::Reopen);
    assert_eq!(c.last_pos, 0);
    assert_eq!(c.on_length(10), ProbeAction::ReadFrom(0));
}

#[test]
fn threat_survives_added_text() {
    let a = "GET /?q=Exploit";
    assert!(check_malicious_activity(a));
    for b in ["", "prefix ", " trailing", "CVE"] {
        assert!(check_malicious_activity(&format!("{}{}", a, b)));
        assert!(check_malicious_activity(&format!("{}{}", b, a)));
    }
}
