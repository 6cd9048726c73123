use oxidewm::config::Config;

#[test]
fn empty_test() {
    assert_eq!(true, true);
}

#[test]
fn default_config_values() {
    let config = Config::default();
    assert_eq!(config.border_width, 3);
    assert_eq!(config.gap, 10);
    assert_eq!(config.border_color, "0xFFFFFF");
    assert_eq!(config.border_focus_color, "0x000000");
    assert_eq!(config.cmds.len(), 1);
    assert_eq!(config.cmds[0].keys, vec!["A".to_string(), "t".to_string()]);
    assert_eq!(config.cmds[0].commands[0].args, Some("kitty".to_string()));
    assert!(config.exec_once.is_empty());
    assert!(config.exec_always.is_empty());
    assert!(config.iter_cmds.is_empty());
}

#[test]
fn error_messages() {
    assert_eq!(oxidewm::Error::GrabKey("busy".to_string()).message(), "grab_key failed: busy");
    assert_eq!(oxidewm::Error::Unknown("x".to_string()).message(), "unknown: x");
}
