use nexus_de::watch::{config_event_reloads, path_ends_with_component};

#[test]
fn config_file_paths() {
    assert!(path_ends_with_component("/home/ada/.config/nexus/config.toml", "config.toml"));
    assert!(path_ends_with_component("config.toml", "config.toml"));
    assert!(path_ends_with_component("./config.toml", "config.toml"));
    assert!(path_ends_with_component("a//config.toml/", "config.toml"));
    assert!(path_ends_with_component("a/config.toml/.", "config.toml"));
    assert!(!path_ends_with_component("a/config.toml.swp", "config.toml"));
    assert!(!path_ends_with_component("a/myconfig.toml", "config.toml"));
    assert!(!path_ends_with_component("/", "config.toml"));
    assert!(!path_ends_with_component("", "config.toml"));
}

#[test]
fn reload_decision() {
    let paths = vec![
        "/home/ada/.config/nexus/other".to_string(),
        "/home/ada/.config/nexus/config.toml".to_string(),
    ];
    assert!(config_event_reloads(true, &paths));
    assert!(!config_event_reloads(false, &paths));
    assert!(!config_event_reloads(true, &vec!["/tmp/x".to_string()]));
    assert!(!config_event_reloads(true, &Vec::new()));
}
