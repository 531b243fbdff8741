use parkplatz::config::{config_or_default, config_path, data_dir, data_dir_from, default_config, start_dir_or_current};
use parkplatz::models::Config;
use parkplatz::paths::join_path;

#[test]
fn data_dir_is_parkplatz_under_the_user_data_dir() {
    assert_eq!(data_dir_from(Some("/home/dev/.local/share".to_string())), "/home/dev/.local/share/parkplatz");
    assert_eq!(data_dir_from(None), "./parkplatz");
    assert!(data_dir().ends_with("/parkplatz"));
}

#[test]
fn config_file_is_inside_the_data_dir() {
    assert_eq!(config_path(), join_path(&data_dir(), "config.json"));
}

#[test]
fn default_config_uses_the_start_directory() {
    assert_eq!(default_config(Some("/work".to_string())).workspace_root, "/work");
    assert_eq!(default_config(None).workspace_root, ".");
    assert_eq!(start_dir_or_current(None), ".");
}

#[test]
fn loaded_config_wins_over_default() {
    let loaded = Config { workspace_root: "/ws".to_string() };
    assert_eq!(config_or_default(Some(loaded), Some("/cwd".to_string())).workspace_root, "/ws");
    assert_eq!(config_or_default(None, Some("/cwd".to_string())).workspace_root, "/cwd");
}

#[test]
fn join_follows_unix_path_rules() {
    assert_eq!(join_path("/a", "b"), "/a/b");
    assert_eq!(join_path("/a/", "b"), "/a/b");
    assert_eq!(join_path("", "b"), "b");
    assert_eq!(join_path("/a", "/b"), "/b");
    assert_eq!(join_path("a", ""), "a/");
}
