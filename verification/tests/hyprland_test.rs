use nexus_de::hyprland::{
    dispatch_command, get_command_socket_path, get_event_socket_path, parse_json_reply,
    HyprlandIpcError,
};

#[test]
fn test_socket_paths_missing_env() {
    assert!(get_command_socket_path(None, Some("/run/user/1000")).is_err());
    assert!(get_event_socket_path(None, Some("/run/user/1000")).is_err());
}

#[test]
fn socket_paths_from_environment_values() {
    assert_eq!(
        get_command_socket_path(Some("abc"), Some("/run/user/1000")).unwrap(),
        "/run/user/1000/hypr/abc/.socket.sock"
    );
    assert_eq!(
        get_event_socket_path(Some("abc"), Some("/run/user/1000/")).unwrap(),
        "/run/user/1000/hypr/abc/.socket2.sock"
    );
}

#[test]
fn missing_signature_is_reported_first() {
    assert!(matches!(
        get_command_socket_path(None, None),
        Err(HyprlandIpcError::NoInstanceSignature)
    ));
    assert!(matches!(
        get_event_socket_path(Some("abc"), None),
        Err(HyprlandIpcError::NoRuntimeDir)
    ));
}

#[test]
fn dispatch_command_text() {
    assert_eq!(dispatch_command("workspace", "2"), "dispatch workspace 2");
    assert_eq!(dispatch_command("exec", "alacritty"), "dispatch exec alacritty");
}

#[test]
fn json_replies() {
    let v = parse_json_reply(r#"[{"id":1,"name":"1"}]"#).unwrap();
    assert_eq!(v[0]["id"], 1);
    assert_eq!(v[0]["name"], "1");
    assert_eq!(v.as_array().map(|a| a.len()), Some(1));
    assert!(matches!(parse_json_reply("not json"), Err(HyprlandIpcError::Json(_))));
    assert!(matches!(parse_json_reply(""), Err(HyprlandIpcError::Json(_))));
}
