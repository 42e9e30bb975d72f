use sfind::{AppConfig, ConfigJson};
use std::path::PathBuf;

#[test]
fn config_file_is_named_after_the_application() {
    let cfg = AppConfig::new(
        "org.example.app",
        PathBuf::from("/home/u/.config/org.example.app.json"),
        ConfigJson {
            folders_to_prune: vec![],
            files_to_prune: vec![],
        },
    );
    assert_eq!(cfg.app_name, "org.example.app");
    assert_eq!(
        AppConfig::config_file_name("org.example.app"),
        "org.example.app.json"
    );
    assert_eq!(
        cfg.config_file_path(),
        PathBuf::from("/home/u/.config/org.example.app.json")
    );
}

#[test]
fn configuration_is_shown_line_by_line() {
    let cfg = AppConfig::new(
        "app",
        PathBuf::from("app.json"),
        ConfigJson {
            folders_to_prune: vec![String::from(".git"), String::from("target")],
            files_to_prune: vec![String::from("*~")],
        },
    );
    assert_eq!(
        cfg.show_config("app.json"),
        vec![
            "smart find configuration from app.json",
            "folders to prune:",
            "    .git",
            "    target",
            "files to prune:",
            "    *~",
        ]
    );
}

#[test]
fn empty_configuration_shows_only_the_headings() {
    let cfg = AppConfig::new(
        "app",
        PathBuf::from("app.json"),
        ConfigJson {
            folders_to_prune: vec![],
            files_to_prune: vec![],
        },
    );
    assert_eq!(
        cfg.show_config("x"),
        vec![
            "smart find configuration from x",
            "folders to prune:",
            "files to prune:",
        ]
    );
}
