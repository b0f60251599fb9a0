use world_monitor::policy::{
    apply_linux_webkit_env_policy, compute_linux_webkit_policy, detect_linux_session,
    env_value_is_false, format_linux_webkit_policy, LINUX_WEBKIT_SAFE_MODE_ENV, WEBKIT_DMABUF_ENV,
};
use world_monitor::text::{normalize_env_value, trim};

#[test]
fn wayland_default_applies_dmabuf_safeguard() {
    let policy = compute_linux_webkit_policy(
        Some("wayland".to_string()),
        Some("wayland-0".to_string()),
        Some(":0".to_string()),
        None,
        None,
    );
    assert!(policy.applied_dmabuf_disable);
    assert!(policy.safe_mode_enabled);
    assert_eq!(policy.session, "wayland".to_string());
}

#[test]
fn wayland_safe_mode_disabled_skips_safeguard() {
    let policy = compute_linux_webkit_policy(
        Some("wayland".to_string()),
        Some("wayland-0".to_string()),
        Some(":0".to_string()),
        Some("0".to_string()),
        None,
    );
    assert!(!policy.applied_dmabuf_disable);
    assert!(!policy.safe_mode_enabled);
    assert!(policy.decision_reason.contains(LINUX_WEBKIT_SAFE_MODE_ENV));
}

#[test]
fn wayland_preserves_existing_dmabuf_override() {
    let policy = compute_linux_webkit_policy(
        Some("wayland".to_string()),
        Some("wayland-0".to_string()),
        Some(":0".to_string()),
        None,
        Some("0".to_string()),
    );
    assert!(!policy.applied_dmabuf_disable);
    assert_eq!(policy.existing_dmabuf_value.as_deref(), Some("0"));
    assert!(policy.decision_reason.contains(WEBKIT_DMABUF_ENV));
}

#[test]
fn x11_session_does_not_apply_wayland_safeguard() {
    let policy = compute_linux_webkit_policy(
        Some("x11".to_string()),
        None,
        Some(":0".to_string()),
        None,
        None,
    );
    assert_eq!(policy.session, "x11".to_string());
    assert!(!policy.applied_dmabuf_disable);
}

#[test]
fn falsy_tokens_are_recognised_after_trim_and_case_folding() {
    for v in ["0", "false", "off", "no", " FALSE ", "\tOff\n", "No"] {
        assert!(env_value_is_false(v), "{v:?}");
    }
    for v in ["1", "true", "yes", "", "  ", "nope", "0 0"] {
        assert!(!env_value_is_false(v), "{v:?}");
    }
}

#[test]
fn session_detection_priority() {
    assert_eq!(detect_linux_session(Some(" Wayland "), None, None), "wayland");
    assert_eq!(detect_linux_session(Some("x11"), Some("wayland-0"), None), "wayland");
    assert_eq!(detect_linux_session(None, None, Some(":0")), "x11");
    assert_eq!(detect_linux_session(Some("X11"), None, None), "x11");
    assert_eq!(detect_linux_session(Some("  TTY "), None, None), "tty");
    assert_eq!(detect_linux_session(Some("   "), None, None), "unknown");
    assert_eq!(detect_linux_session(None, None, None), "unknown");
}

#[test]
fn session_classification_is_idempotent() {
    for input in [Some(" MIR "), Some("wayland"), None, Some("")] {
        let once = detect_linux_session(input, None, None);
        let twice = detect_linux_session(Some(once.as_str()), None, None);
        assert_eq!(once, twice);
    }
}

#[test]
fn reasons_name_the_deciding_factor() {
    let p = compute_linux_webkit_policy(Some("tty".to_string()), None, None, None, None);
    assert_eq!(p.decision_reason, "session=tty; no automatic WebKit DMABUF override");
    let p = compute_linux_webkit_policy(None, Some("w".to_string()), None, None, Some("1".to_string()));
    assert_eq!(p.decision_reason, "WEBKIT_DISABLE_DMABUF_RENDERER already set to 1");
    let p = compute_linux_webkit_policy(None, Some("w".to_string()), None, Some("on".to_string()), None);
    assert!(p.safe_mode_enabled);
    assert_eq!(
        p.decision_reason,
        "Wayland detected with no WEBKIT_DISABLE_DMABUF_RENDERER; applying conservative WebKit renderer defaults"
    );
}

#[test]
fn plan_on_wayland_with_safe_mode() {
    let plan = apply_linux_webkit_env_policy(
        Some(" wayland ".to_string()),
        None,
        None,
        Some("   ".to_string()),
        Some("".to_string()),
    );
    assert!(plan.policy.applied_dmabuf_disable);
    assert!(plan.policy.safe_mode_enabled);
    assert_eq!(plan.policy.existing_dmabuf_value, None);
    let names: Vec<(String, Option<String>)> =
        plan.changes.iter().map(|c| (c.name.clone(), c.value.clone())).collect();
    assert_eq!(names.len(), 11);
    assert_eq!(names[0], ("WEBKIT_DISABLE_DMABUF_RENDERER".to_string(), Some("1".to_string())));
    assert_eq!(
        names[1],
        ("WEBKIT_DISABLE_SANDBOX_THIS_IS_DANGEROUS".to_string(), Some("1".to_string()))
    );
    assert_eq!(names[2], ("GST_PLUGIN_PATH".to_string(), None));
    assert_eq!(names[9], ("GST_REGISTRY_REUSE_PLUGIN_SCANNER".to_string(), None));
    assert_eq!(names[10], ("GST_PLUGIN_BLACKLIST".to_string(), Some("onnx".to_string())));
}

#[test]
fn plan_without_safe_mode_only_blacklists() {
    let plan = apply_linux_webkit_env_policy(
        Some("wayland".to_string()),
        None,
        None,
        Some(" OFF ".to_string()),
        None,
    );
    assert!(!plan.policy.safe_mode_enabled);
    assert_eq!(plan.changes.len(), 1);
    assert_eq!(plan.changes[0].name, "GST_PLUGIN_BLACKLIST");
}

#[test]
fn format_line_uses_dashes_for_absent_values() {
    let p = compute_linux_webkit_policy(Some("x11".to_string()), None, Some(":0".to_string()), None, None);
    assert_eq!(
        format_linux_webkit_policy(&p),
        "linux_webkit_policy session=x11 xdg_session_type=x11 wayland_display=- display=:0 safe_mode_enabled=true existing_dmabuf=- applied_dmabuf_disable=false reason=\"session=x11; no automatic WebKit DMABUF override\""
    );
}

#[test]
fn trim_and_normalize() {
    assert_eq!(trim("  a b \u{3000}"), "a b");
    assert_eq!(normalize_env_value(Some(" \t ".to_string())), None);
    assert_eq!(normalize_env_value(Some(" v ".to_string())), Some("v".to_string()));
    assert_eq!(normalize_env_value(None), None);
}
