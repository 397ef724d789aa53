use poshanka::cli::Cli;
use poshanka::config::{config_dir_from_env, default_config_path, LayerShell};

#[test]
fn config_dir_ends_with_poshanka() {
    assert!(config_dir_from_env(None, Some("/home/user")).ends_with("poshanka"));
    assert!(config_dir_from_env(Some("/xdg"), None).ends_with("poshanka"));
}

#[test]
fn default_config_path_ends_with_config_toml() {
    assert!(default_config_path(None, Some("/home/user")).ends_with("poshanka/config.toml"));
    assert!(default_config_path(None, None).ends_with("poshanka/config.toml"));
}

#[test]
fn xdg_config_home_used_when_set() {
    let dir = config_dir_from_env(Some("/xdg/config"), Some("/home/user"));
    assert_eq!(dir, "/xdg/config/poshanka");
}

#[test]
fn empty_xdg_config_home_falls_back_to_home() {
    let dir = config_dir_from_env(Some(""), Some("/home/user"));
    assert_eq!(dir, "/home/user/.config/poshanka");
}

#[test]
fn no_xdg_config_home_uses_home_dot_config() {
    let dir = config_dir_from_env(None, Some("/home/user"));
    assert_eq!(dir, "/home/user/.config/poshanka");
}

#[test]
fn no_xdg_no_home_falls_back_to_dot_config() {
    let dir = config_dir_from_env(None, None);
    assert_eq!(dir, ".config/poshanka");
}

#[test]
fn trailing_slash_is_not_doubled() {
    assert_eq!(config_dir_from_env(Some("/xdg/"), None), "/xdg/poshanka");
    assert_eq!(default_config_path(Some("/xdg/"), None), "/xdg/poshanka/config.toml");
}

#[test]
fn cli_config_path_defaults_to_config_dir() {
    let cli = Cli::default();
    assert_eq!(
        cli.config_path(None, Some("/home/user")),
        "/home/user/.config/poshanka/config.toml"
    );
}

#[test]
fn cli_config_path_prefers_the_flag() {
    let cli = Cli {
        config: Some("/tmp/c.toml".to_string()),
    };
    assert_eq!(cli.config_path(Some("/xdg"), Some("/home/user")), "/tmp/c.toml");
}

#[test]
fn layer_names_are_lowercase() {
    assert_eq!(LayerShell::Background.name(), "background");
    assert_eq!(LayerShell::Bottom.name(), "bottom");
    assert_eq!(LayerShell::Top.name(), "top");
    assert_eq!(LayerShell::Overlay.name(), "overlay");
}
