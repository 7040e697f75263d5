use openpeer::config::{identity_dir_for, parse_port, Config};
use openpeer::protocol::messages::{IpAddress, SocketAddress};

#[test]
fn test_default_signaling_port() {
    let cfg = Config::default();
    assert_eq!(cfg.signaling_port, 38901);
    assert_eq!(cfg.turn_port, 38902);
    assert_eq!(cfg.log_filter, "info");
}

#[test]
fn test_apply_env_signaling_port() {
    let mut cfg = Config::default();
    cfg.apply_env(Some("443"), None, None, None);
    assert_eq!(cfg.signaling_port, 443);
}

#[test]
fn test_apply_env_turn_port() {
    let mut cfg = Config::default();
    cfg.apply_env(None, Some("443"), None, None);
    assert_eq!(cfg.turn_port, 443);
}

#[test]
fn test_apply_env_log_filter() {
    let mut cfg = Config::default();
    cfg.apply_env(None, None, Some("debug".to_string()), None);
    assert_eq!(cfg.log_filter, "debug");
}

#[test]
fn test_apply_env_identity_dir() {
    let mut cfg = Config::default();
    cfg.apply_env(None, None, None, Some(std::path::PathBuf::from("/tmp/openpeer-test")));
    assert_eq!(cfg.identity_dir, std::path::PathBuf::from("/tmp/openpeer-test"));
}

#[test]
fn test_apply_env_invalid_port_ignores() {
    let mut cfg = Config::default();
    let original = cfg.signaling_port;
    cfg.apply_env(Some("not-a-number"), None, None, None);
    assert_eq!(cfg.signaling_port, original);
}

#[test]
fn test_apply_env() {
    let mut cfg = Config::default();
    cfg.apply_env(None, None, None, None);
    assert_eq!(cfg.signaling_port, 38901);
    assert_eq!(cfg.turn_port, 38902);
    assert_eq!(cfg.log_filter, "info");
}

#[test]
fn test_signaling_addr() {
    let cfg = Config::default();
    let addr = SocketAddress { ip: IpAddress::V4([1, 2, 3, 4]), port: 0 };
    let bound = cfg.signaling_addr(addr);
    assert_eq!(bound.port, 38901);
    assert_eq!(bound.ip, IpAddress::V4([1, 2, 3, 4]));
}

#[test]
fn parse_port_accepts_what_u16_parse_accepts() {
    for s in ["0", "443", "+443", "0443", "65535", "65536", "", "+", "-1", "-0", "4a", " 1", "1 ", "99999999999", "١٢"] {
        assert_eq!(parse_port(s), s.parse::<u16>().ok(), "disagreement on {:?}", s);
    }
}

#[test]
fn apply_env_keeps_port_on_overflow() {
    let mut cfg = Config::default();
    cfg.apply_env(Some("70000"), Some("+8080"), None, None);
    assert_eq!(cfg.signaling_port, 38901);
    assert_eq!(cfg.turn_port, 8080);
}

#[test]
fn default_identity_dir_is_openpeer_under_home() {
    let cfg = Config::default();
    let home = dirs::home_dir().unwrap_or_else(|| std::path::PathBuf::from("."));
    assert_eq!(cfg.identity_dir, home.join(".openpeer"));
}

#[test]
fn identity_dir_for_home_and_fallback() {
    let home = std::path::PathBuf::from("/home/alice");
    assert_eq!(identity_dir_for(Some(home)), std::path::PathBuf::from("/home/alice/.openpeer"));
    assert_eq!(identity_dir_for(None), std::path::PathBuf::from("./.openpeer"));
}

#[test]
fn config_clone_keeps_every_field() {
    let mut cfg = Config::default();
    cfg.apply_env(Some("1"), Some("2"), Some("trace".to_string()), Some("/x".into()));
    let copy = cfg.clone();
    assert_eq!(copy.signaling_port, 1);
    assert_eq!(copy.turn_port, 2);
    assert_eq!(copy.log_filter, "trace");
    assert_eq!(copy.identity_dir, std::path::PathBuf::from("/x"));
}
