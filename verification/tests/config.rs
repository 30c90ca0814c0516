use starshield::config::{parse_port, AppConfig};

#[test]
fn defaults_when_nothing_is_set() {
    let c = AppConfig::from_env_values(None, None, None, None, None, None);
    assert_eq!(c.hub_port, 8788);
    assert_eq!(c.vm_ip, "10.211.55.4");
    assert_eq!(c.vm_user, "samhuang");
    assert_eq!(c.ssh_key_path, "/Users/huangxin/.ssh/id_ed25519");
    assert_eq!(c.xai_api_key, None);
    assert_eq!(c.deepseek_api_key, None);
}

#[test]
fn settings_override_defaults() {
    let c = AppConfig::from_env_values(
        Some("9000".to_string()),
        Some("192.168.1.2".to_string()),
        Some("root".to_string()),
        Some("/k".to_string()),
        Some("xai".to_string()),
        Some("ds".to_string()),
    );
    assert_eq!(c.hub_port, 9000);
    assert_eq!(c.vm_ip, "192.168.1.2");
    assert_eq!(c.vm_user, "root");
    assert_eq!(c.ssh_key_path, "/k");
    assert_eq!(c.xai_api_key, Some("xai".to_string()));
    assert_eq!(c.deepseek_api_key, Some("ds".to_string()));
}

#[test]
fn unparsable_port_falls_back() {
    for bad in ["", "+", "-1", "70000", "80a", " 80", "65536"] {
        let c = AppConfig::from_env_values(Some(bad.to_string()), None, None, None, None, None);
        assert_eq!(c.hub_port, 8788, "{bad}");
    }
}

#[test]
fn port_parsing_matches_std() {
    for s in ["0", "+8080", "00065535", "65535", "65536", "", "+", "-0", "12 ", "١٢", "99999999999999999999", "+-1"] {
        assert_eq!(parse_port(s), s.parse::<u16>().ok(), "{s:?}");
    }
}
