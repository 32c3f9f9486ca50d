use mpsc_chat::config::{Config, ConfigError, Mode, Settings, Validate};

fn text(s: &str) -> Option<String> {
    Some(s.to_string())
}

fn config(
    name: &str,
    version: &str,
    settings: Settings,
    features: &[&str],
    mode: &str,
) -> Config {
    Config {
        name: text(name),
        version: text(version),
        settings: Some(settings),
        features: Some(features.iter().map(|f| f.to_string()).collect()),
        mode: Mode::from_name(mode),
    }
}

#[test]
fn test_parse_valid_config() {
    let mut config = config(
        "MyApp",
        "1.0.0",
        Settings { theme: text("dark"), max_connections: Some(100) },
        &["feature1", "feature2"],
        "development",
    );
    assert!(config.validate().is_ok());
    assert_eq!(config.name, Some("MyApp".to_string()));
    assert_eq!(config.version, Some("1.0.0".to_string()));
    assert_eq!(config.settings.unwrap().max_connections.unwrap(), 100);
    assert_eq!(config.features, Some(vec!["feature1".to_string(), "feature2".to_string()]));
    assert_eq!(config.mode, Some(Mode::Development));
}

#[test]
fn test_parse_invalid_config() {
    let mut config =
        config("", "", Settings { theme: None, max_connections: None }, &[], "development");
    let result = config.validate();
    assert!(result.is_err(), "Invalid config should return an error");
    assert!(matches!(result, Err(ConfigError::EmptyName)));
}

#[test]
fn test_case_insensitive_mode() {
    let mut config = config(
        "MyApp",
        "1.0.0",
        Settings { theme: text("light"), max_connections: Some(50) },
        &["featureA", "featureB"],
        "DeVeLoPmEnT",
    );
    assert!(config.validate().is_ok());
    assert_eq!(config.mode, Some(Mode::Development));
}

#[test]
fn test_default_settings() {
    let mut config = config(
        "DefaultApp",
        "2.0.0",
        Settings { theme: None, max_connections: None },
        &["default_feature"],
        "production",
    );
    assert!(config.validate().is_ok());
    assert_eq!(config.settings.unwrap().theme.unwrap(), "default".to_string());
}

#[test]
fn missing_settings_get_the_defaults() {
    let mut config = config("App", "0.1.2", Settings::default(), &["f"], "testing");
    config.settings = None;
    assert!(config.validate().is_ok());
    let settings = config.settings.unwrap();
    assert_eq!(settings.theme, text("default"));
    assert_eq!(settings.max_connections, Some(10));
    assert_eq!(config.mode, Some(Mode::Testing));

    let mut config =
        config_with_limit_only();
    assert!(config.validate().is_ok());
    let settings = config.settings.unwrap();
    assert_eq!(settings.theme, text("default"));
    assert_eq!(settings.max_connections, Some(3));
}

fn config_with_limit_only() -> Config {
    config("App", "1.2.3", Settings { theme: None, max_connections: Some(3) }, &["f"], "testing")
}

#[test]
fn each_rule_has_its_error() {
    let settings = || Settings { theme: None, max_connections: None };
    let mut c = config("  ", "1.0.0", settings(), &["f"], "testing");
    assert!(matches!(c.validate(), Err(ConfigError::EmptyName)));
    c.name = None;
    assert!(matches!(c.validate(), Err(ConfigError::EmptyName)));
    let mut c = config("App", " \t", settings(), &["f"], "testing");
    assert!(matches!(c.validate(), Err(ConfigError::EmptyVersion)));
    c.version = None;
    assert!(matches!(c.validate(), Err(ConfigError::EmptyVersion)));
    for bad in ["1.0", "1.0.0.0", "1.a.0", "v1.0.0", "1.0.0 "] {
        let mut c = config("App", bad, settings(), &["f"], "testing");
        assert!(matches!(c.validate(), Err(ConfigError::InvalidVersion)));
        assert!(c.settings.unwrap().theme.is_none());
    }
    let mut c = config("App", "1..2", settings(), &["f"], "testing");
    assert!(c.validate().is_ok());
    let mut c = config("App", "1.0.0", settings(), &[], "testing");
    assert!(matches!(c.validate(), Err(ConfigError::EmptyFeatures)));
    c.features = None;
    assert!(matches!(c.validate(), Err(ConfigError::EmptyFeatures)));
}

#[test]
fn modes_are_read_by_name() {
    assert_eq!(Mode::from_name("production"), Some(Mode::Production));
    assert_eq!(Mode::from_name("TESTING"), Some(Mode::Testing));
    assert_eq!(Mode::from_name("Development"), Some(Mode::Development));
    assert_eq!(Mode::from_name("staging"), None);
    assert_eq!(Mode::from_name(""), None);
}

#[test]
fn errors_have_messages() {
    assert_eq!(ConfigError::EmptyName.to_string(), "Name CANNOT be empty");
    assert_eq!(ConfigError::EmptyVersion.to_string(), "Version CANNOT be empty");
    assert_eq!(ConfigError::InvalidVersion.to_string(), "Version must follow X.Y.Z format");
    assert_eq!(ConfigError::EmptyFeatures.to_string(), "No Feature is found");
    assert_eq!(ConfigError::InvalidSettings("x".to_string()).to_string(), "Invalid settings: x");
    assert_eq!(
        ConfigError::InvalidMode.to_string(),
        "Invalid mode: must be Devlopment, Testing, or Production"
    );
    assert!(matches!(
        ConfigError::from_decoder_message("invalid mode at line 1".to_string()),
        ConfigError::InvalidMode
    ));
    assert!(matches!(
        ConfigError::from_decoder_message("missing field".to_string()),
        ConfigError::InvalidSettings(m) if m == "missing field"
    ));
}
