use salix::config::{default_agent_cert_path, default_config_log_level, log_level_from_name, LogLevel, Web};

#[test]
fn defaults() {
    assert_eq!(default_agent_cert_path(), "salix.pem");
    assert_eq!(default_config_log_level(), LogLevel::Info);
    let _web = Web::new();
}

#[test]
fn log_level_names_in_any_case() {
    assert_eq!(log_level_from_name("error"), Some(LogLevel::Error));
    assert_eq!(log_level_from_name("WARN"), Some(LogLevel::Warn));
    assert_eq!(log_level_from_name("Info"), Some(LogLevel::Info));
    assert_eq!(log_level_from_name("DeBuG"), Some(LogLevel::Debug));
    assert_eq!(log_level_from_name("trace"), Some(LogLevel::Trace));
    assert_eq!(log_level_from_name("verbose"), None);
    assert_eq!(log_level_from_name(""), None);
    assert_eq!(log_level_from_name("infos"), None);
}
