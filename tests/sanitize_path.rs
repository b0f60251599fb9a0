use world_monitor::supervisor::sanitize_path_for_node;

#[test]
fn strips_extended_drive_prefix() {
    let raw = r"\\?\C:\Program Files\nodejs\node.exe";
    assert_eq!(
        sanitize_path_for_node(raw),
        r"C:\Program Files\nodejs\node.exe".to_string()
    );
}

#[test]
fn strips_extended_unc_prefix_and_preserves_unc_root() {
    let raw = r"\\?\UNC\server\share\sidecar\local-api-server.mjs";
    assert_eq!(
        sanitize_path_for_node(raw),
        r"\\server\share\sidecar\local-api-server.mjs".to_string()
    );
}

#[test]
fn leaves_standard_paths_unchanged() {
    let raw = r"C:\Users\alice\sidecar\local-api-server.mjs";
    assert_eq!(
        sanitize_path_for_node(raw),
        r"C:\Users\alice\sidecar\local-api-server.mjs".to_string()
    );
}

#[test]
fn unc_prefix_alone_becomes_bare_root() {
    assert_eq!(sanitize_path_for_node(r"\\?\UNC\"), r"\\".to_string());
}

#[test]
fn short_and_empty_paths_are_unchanged() {
    assert_eq!(sanitize_path_for_node(""), String::new());
    assert_eq!(sanitize_path_for_node(r"\\?"), r"\\?".to_string());
    assert_eq!(sanitize_path_for_node(r"\\server\share"), r"\\server\share".to_string());
}
