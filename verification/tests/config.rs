use me::config::{
    apply_env_overrides, default_config_yaml, exceeds_size_limit, ColorMode, Config, EnvValues,
    IconMode, LoadOutcome, PlainMode, ViewMode, CONFIG_SIZE_LIMIT_BYTES,
};

fn no_env() -> EnvValues {
    EnvValues {
        view: None,
        icons: None,
        color: None,
        plain_mode: None,
        watch_interval: None,
    }
}

#[test]
fn load_defaults_color_to_auto() {
    let (config, warning) = Config::load(LoadOutcome::NoPath, &no_env());
    assert!(warning.is_none());
    assert_eq!(config.color, ColorMode::Auto);
}

#[test]
fn load_creates_default_config_when_missing() {
    let written = default_config_yaml();
    assert!(written.contains("view: block"));
    assert!(written.contains("theme: dark"));
    assert!(written.contains("color: auto"));
    let (config, warning) = Config::load_from(LoadOutcome::Parsed(Config::default()));
    assert!(warning.is_none());
    assert_eq!(config.theme, "dark");
    assert_eq!(config.view, ViewMode::Block);
}

#[test]
fn load_falls_back_to_defaults_when_config_is_invalid() {
    let path = "/tmp/home/.config/me/config.yaml";
    let (config, warning) = Config::load_from(LoadOutcome::Invalid { path: path.into() });
    let warning = warning.expect("expected invalid config warning");
    assert!(warning.contains("invalid config"));
    assert!(warning.contains(path));
    assert!(!warning.contains("did not find expected"));
    assert_eq!(config.view, ViewMode::Block);
    assert_eq!(config.theme, "dark");
}

#[test]
fn load_falls_back_to_defaults_when_config_is_too_large() {
    let path = "/tmp/home/.config/me/config.yaml";
    assert!(exceeds_size_limit(CONFIG_SIZE_LIMIT_BYTES + 1));
    assert!(!exceeds_size_limit(CONFIG_SIZE_LIMIT_BYTES));
    let (config, warning) = Config::load_from(LoadOutcome::TooLarge { path: path.into() });
    let warning = warning.expect("expected oversize config warning");
    assert!(warning.contains("config file is too large"));
    assert!(warning.contains(path));
    assert_eq!(config.view, ViewMode::Block);
}

#[test]
fn env_overrides_apply_valid_values_only() {
    let mut config = Config::default();
    let env = EnvValues {
        view: Some("compact".into()),
        icons: Some("invalid".into()),
        color: Some("off".into()),
        plain_mode: Some("user".into()),
        watch_interval: Some("5".into()),
    };

    apply_env_overrides(&mut config, &env);

    assert_eq!(config.view, ViewMode::Compact);
    assert_eq!(config.color, ColorMode::Off);
    assert_eq!(config.watch.interval, 5);
    assert_eq!(config.plain_mode, PlainMode::User);
    assert_eq!(config.icons, IconMode::Auto);
}

#[test]
fn warnings_name_the_path_and_error() {
    let (_, w) = Config::load_from(LoadOutcome::ReadFailed {
        path: "/c.yaml".into(),
        error: "denied".into(),
    });
    assert_eq!(w.as_deref(), Some("could not read config at /c.yaml: denied; using defaults"));
    let (_, w) = Config::load_from(LoadOutcome::InitFailed {
        path: "/c.yaml".into(),
        error: "denied".into(),
    });
    assert_eq!(
        w.as_deref(),
        Some("warning: could not initialize config at /c.yaml: denied; using defaults")
    );
    let mut c = Config::default();
    c.theme = "LiGhT".into();
    assert!(c.is_light_theme());
}
