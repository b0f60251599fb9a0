use vstd::prelude::*;
use vstd::string::*;
use crate::text::{
    ascii_lower, lemma_ascii_lower_facts, lemma_trimmed_ends, lemma_trimmed_fixed, normalize_env_value, normalized, opt_str_view, opt_view, to_ascii_lower, trim,
    trimmed,
};

verus! {

/// Variable that turns the automatic Wayland safeguards off when falsy.
pub const LINUX_WEBKIT_SAFE_MODE_ENV: &'static str = "WM_LINUX_WEBKIT_SAFE_MODE";

/// Variable that disables the renderer's DMABUF path.
pub const WEBKIT_DMABUF_ENV: &'static str = "WEBKIT_DISABLE_DMABUF_RENDERER";

/// Variable that disables the toolkit's sandbox.
pub const WEBKIT_SANDBOX_ENV: &'static str = "WEBKIT_DISABLE_SANDBOX_THIS_IS_DANGEROUS";

/// Variable that names codec plugins the media framework must not load.
pub const GST_BLACKLIST_ENV: &'static str = "GST_PLUGIN_BLACKLIST";

/// The decision taken for the Linux renderer environment, with its inputs.
#[derive(Debug, PartialEq, Eq)]
pub struct LinuxWebkitEnvPolicy {
    pub session: String,
    pub xdg_session_type: Option<String>,
    pub wayland_display: Option<String>,
    pub x11_display: Option<String>,
    pub safe_mode_enabled: bool,
    pub existing_dmabuf_value: Option<String>,
    pub applied_dmabuf_disable: bool,
    pub decision_reason: String,
}

/// One change to the process environment: set to `Some(value)`, or unset on `None`.
pub struct EnvChange {
    pub name: String,
    pub value: Option<String>,
}

/// The policy and the environment changes that carry it out.
pub struct LinuxWebkitEnvPlan {
    pub policy: LinuxWebkitEnvPolicy,
    pub changes: Vec<EnvChange>,
}

/// The tokens that switch a flag off (compared after trimming and lower-casing).
pub open spec fn is_false_token(s: Seq<char>) -> bool {
    s == "0"@ || s == "false"@ || s == "off"@ || s == "no"@
}

pub open spec fn value_is_false(v: Seq<char>) -> bool {
    is_false_token(ascii_lower(trimmed(v)))
}

/// The session type variable, trimmed and lower-cased, when anything is left.
pub open spec fn normalized_session_type(x: Option<Seq<char>>) -> Option<Seq<char>> {
    match x {
        Some(v) => if trimmed(v).len() > 0 {
            Some(ascii_lower(trimmed(v)))
        } else {
            None
        },
        None => None,
    }
}

/// Classification of the display session, in priority order.
pub open spec fn session_of(
    session_type: Option<Seq<char>>,
    wayland_present: bool,
    x11_present: bool,
) -> Seq<char> {
    let n = normalized_session_type(session_type);
    if n == Some("wayland"@) || wayland_present {
        "wayland"@
    } else if n == Some("x11"@) || x11_present {
        "x11"@
    } else {
        match n {
            Some(v) => v,
            None => "unknown"@,
        }
    }
}

/// Safe mode stays on unless its override holds a falsy token.
pub open spec fn safe_mode_of(safe_override: Option<Seq<char>>) -> bool {
    match safe_override {
        Some(v) => !value_is_false(v),
        None => true,
    }
}

/// Whether the renderer override is applied.
pub open spec fn applies_override(
    session: Seq<char>,
    safe_mode: bool,
    existing: Option<Seq<char>>,
) -> bool {
    session == "wayland"@ && safe_mode && existing is None
}

/// The justification recorded for each row of the decision table.
pub open spec fn reason_of(
    session: Seq<char>,
    safe_mode: bool,
    existing: Option<Seq<char>>,
) -> Seq<char> {
    if session != "wayland"@ {
        "session="@ + session + "; no automatic WebKit DMABUF override"@
    } else if !safe_mode {
        LINUX_WEBKIT_SAFE_MODE_ENV@ + " disabled automatic Wayland WebKit safeguards"@
    } else {
        match existing {
            Some(e) => WEBKIT_DMABUF_ENV@ + " already set to "@ + e,
            None => "Wayland detected with no "@ + WEBKIT_DMABUF_ENV@
                + "; applying conservative WebKit renderer defaults"@,
        }
    }
}

/// The full decision for the given environment values.
pub open spec fn policy_matches(
    p: LinuxWebkitEnvPolicy,
    session_type: Option<Seq<char>>,
    wayland_display: Option<Seq<char>>,
    x11_display: Option<Seq<char>>,
    safe_override: Option<Seq<char>>,
    existing: Option<Seq<char>>,
) -> bool {
    let session = session_of(session_type, wayland_display is Some, x11_display is Some);
    let safe = safe_mode_of(safe_override);
    &&& p.session@ == session
    &&& opt_view(p.xdg_session_type) == session_type
    &&& opt_view(p.wayland_display) == wayland_display
    &&& opt_view(p.x11_display) == x11_display
    &&& p.safe_mode_enabled == safe
    &&& opt_view(p.existing_dmabuf_value) == existing
    &&& p.applied_dmabuf_disable == applies_override(session, safe, existing)
    &&& p.decision_reason@ == reason_of(session, safe, existing)
}

/// Whether `value`, trimmed and lower-cased, is one of the falsy tokens.
pub fn env_value_is_false(value: &str) -> (r: bool)
    ensures
        r == value_is_false(value@),
{
    let t = trim(value);
    let l = to_ascii_lower(t.as_str());
    l == String::from_str("0") || l == String::from_str("false") || l == String::from_str("off")
        || l == String::from_str("no")
}

/// Classifies the display session from the session type and the two display handles.
pub fn detect_linux_session(
    xdg_session_type: Option<&str>,
    wayland_display: Option<&str>,
    x11_display: Option<&str>,
) -> (r: String)
    ensures
        r@ == session_of(
            opt_str_view(xdg_session_type),
            wayland_display is Some,
            x11_display is Some,
        ),
{
    let normalized: Option<String> = match xdg_session_type {
        Some(v) => {
            let t = trim(v);
            if t.unicode_len() > 0 {
                Some(to_ascii_lower(t.as_str()))
            } else {
                None
            }
        },
        None => None,
    };
    let is_wayland = match &normalized {
        Some(n) => *n == String::from_str("wayland"),
        None => false,
    };
    if is_wayland || wayland_display.is_some() {
        return String::from_str("wayland");
    }
    let is_x11 = match &normalized {
        Some(n) => *n == String::from_str("x11"),
        None => false,
    };
    if is_x11 || x11_display.is_some() {
        return String::from_str("x11");
    }
    match normalized {
        Some(n) => n,
        None => String::from_str("unknown"),
    }
}

fn as_opt_str(o: &Option<String>) -> (r: Option<&str>)
    ensures
        opt_str_view(r) == opt_view(*o),
{
    match o {
        Some(s) => Some(s.as_str()),
        None => None,
    }
}

/// Decides whether the renderer override is applied, and why.
pub fn compute_linux_webkit_policy(
    xdg_session_type: Option<String>,
    wayland_display: Option<String>,
    x11_display: Option<String>,
    safe_mode_override: Option<String>,
    existing_dmabuf_value: Option<String>,
) -> (r: LinuxWebkitEnvPolicy)
    ensures
        policy_matches(
            r,
            opt_view(xdg_session_type),
            opt_view(wayland_display),
            opt_view(x11_display),
            opt_view(safe_mode_override),
            opt_view(existing_dmabuf_value),
        ),
{
    let session = detect_linux_session(
        as_opt_str(&xdg_session_type),
        as_opt_str(&wayland_display),
        as_opt_str(&x11_display),
    );
    let safe_mode_enabled = match &safe_mode_override {
        Some(v) => !env_value_is_false(v.as_str()),
        None => true,
    };
    let wayland_detected = session == String::from_str("wayland");
    let mut reason: String;
    let applied: bool;
    if !wayland_detected {
        applied = false;
        reason = String::from_str("session=");
        reason.append(session.as_str());
        reason.append("; no automatic WebKit DMABUF override");
    } else if !safe_mode_enabled {
        applied = false;
        reason = String::from_str(LINUX_WEBKIT_SAFE_MODE_ENV);
        reason.append(" disabled automatic Wayland WebKit safeguards");
    } else {
        match &existing_dmabuf_value {
            Some(e) => {
                applied = false;
                reason = String::from_str(WEBKIT_DMABUF_ENV);
                reason.append(" already set to ");
                reason.append(e.as_str());
            },
            None => {
                applied = true;
                reason = String::from_str("Wayland detected with no ");
                reason.append(WEBKIT_DMABUF_ENV);
                reason.append("; applying conservative WebKit renderer defaults");
            },
        }
    }
    LinuxWebkitEnvPolicy {
        session,
        xdg_session_type,
        wayland_display,
        x11_display,
        safe_mode_enabled,
        existing_dmabuf_value,
        applied_dmabuf_disable: applied,
        decision_reason: reason,
    }
}

/// The media-framework path variables that a packaging tool may leave behind.
pub open spec fn gst_path_vars() -> Seq<Seq<char>> {
    seq![
        "GST_PLUGIN_PATH"@,
        "GST_PLUGIN_PATH_1_0"@,
        "GST_PLUGIN_SCANNER"@,
        "GST_PLUGIN_SCANNER_1_0"@,
        "GST_REGISTRY_1_0"@,
        "GST_PLUGIN_SYSTEM_PATH_1_0"@,
        "GST_PTP_HELPER_1_0"@,
        "GST_REGISTRY_REUSE_PLUGIN_SCANNER"@,
    ]
}

pub open spec fn change_view(c: EnvChange) -> (Seq<char>, Option<Seq<char>>) {
    (c.name@, opt_view(c.value))
}

pub open spec fn changes_view(v: Seq<EnvChange>) -> Seq<(Seq<char>, Option<Seq<char>>)> {
    v.map_values(|c: EnvChange| change_view(c))
}

pub open spec fn unset_all(names: Seq<Seq<char>>) -> Seq<(Seq<char>, Option<Seq<char>>)> {
    names.map_values(|n: Seq<char>| (n, None::<Seq<char>>))
}

/// The environment changes that carry out a decision, in order.
pub open spec fn planned_changes(p: LinuxWebkitEnvPolicy) -> Seq<(Seq<char>, Option<Seq<char>>)> {
    let dmabuf = if p.applied_dmabuf_disable {
        seq![(WEBKIT_DMABUF_ENV@, Some("1"@))]
    } else {
        Seq::empty()
    };
    let sandbox = if p.safe_mode_enabled && p.session@ == "wayland"@ {
        seq![(WEBKIT_SANDBOX_ENV@, Some("1"@))]
    } else {
        Seq::empty()
    };
    let cleared = if p.safe_mode_enabled {
        unset_all(gst_path_vars())
    } else {
        Seq::empty()
    };
    dmabuf + sandbox + cleared + seq![(GST_BLACKLIST_ENV@, Some("onnx"@))]
}

fn push_change(v: &mut Vec<EnvChange>, name: &str, value: Option<&str>)
    ensures
        changes_view(final(v)@) == changes_view(old(v)@).push((name@, opt_str_view(value))),
{
    let owned = match value {
        Some(x) => Some(String::from_str(x)),
        None => None,
    };
    v.push(EnvChange { name: String::from_str(name), value: owned });
    assert(changes_view(v@) =~= changes_view(old(v)@).push((name@, opt_str_view(value))));
}

fn gst_path_var_list() -> (r: Vec<&'static str>)
    ensures
        r@.map_values(|s: &str| s@) == gst_path_vars(),
{
    let r = vec![
        "GST_PLUGIN_PATH",
        "GST_PLUGIN_PATH_1_0",
        "GST_PLUGIN_SCANNER",
        "GST_PLUGIN_SCANNER_1_0",
        "GST_REGISTRY_1_0",
        "GST_PLUGIN_SYSTEM_PATH_1_0",
        "GST_PTP_HELPER_1_0",
        "GST_REGISTRY_REUSE_PLUGIN_SCANNER",
    ];
    assert(r@.map_values(|s: &str| s@) =~= gst_path_vars());
    r
}

/// Decides the renderer policy from the raw environment values (each trimmed,
/// and absent when empty) and lists the environment changes that carry it out.
pub fn apply_linux_webkit_env_policy(
    xdg_session_type: Option<String>,
    wayland_display: Option<String>,
    x11_display: Option<String>,
    safe_mode_override: Option<String>,
    existing_dmabuf_value: Option<String>,
) -> (r: LinuxWebkitEnvPlan)
    ensures
        policy_matches(
            r.policy,
            normalized(opt_view(xdg_session_type)),
            normalized(opt_view(wayland_display)),
            normalized(opt_view(x11_display)),
            normalized(opt_view(safe_mode_override)),
            normalized(opt_view(existing_dmabuf_value)),
        ),
        changes_view(r.changes@) == planned_changes(r.policy),
{
    let policy = compute_linux_webkit_policy(
        normalize_env_value(xdg_session_type),
        normalize_env_value(wayland_display),
        normalize_env_value(x11_display),
        normalize_env_value(safe_mode_override),
        normalize_env_value(existing_dmabuf_value),
    );
    let mut changes: Vec<EnvChange> = Vec::new();
    let ghost dmabuf = changes_view(changes@);
    if policy.applied_dmabuf_disable {
        push_change(&mut changes, WEBKIT_DMABUF_ENV, Some("1"));
    }
    let ghost after_dmabuf = changes_view(changes@);
    if policy.safe_mode_enabled {
        if policy.session == String::from_str("wayland") {
            push_change(&mut changes, WEBKIT_SANDBOX_ENV, Some("1"));
        }
    }
    let ghost after_sandbox = changes_view(changes@);
    if policy.safe_mode_enabled {
        let names = gst_path_var_list();
        let mut i: usize = 0;
        while i < names.len()
            invariant
                0 <= i <= names@.len(),
                names@.map_values(|s: &str| s@) == gst_path_vars(),
                changes_view(changes@) == after_sandbox + unset_all(gst_path_vars().take(i as int)),
            decreases names.len() - i,
        {
            push_change(&mut changes, names[i], None);
            proof {
                assert(gst_path_vars().take(i + 1) =~= gst_path_vars().take(i as int).push(
                    names@[i as int]@,
                ));
                assert(unset_all(gst_path_vars().take(i + 1)) =~= unset_all(
                    gst_path_vars().take(i as int),
                ).push((names@[i as int]@, None::<Seq<char>>)));
            }
            i = i + 1;
        }
        assert(gst_path_vars().take(8) =~= gst_path_vars());
    }
    push_change(&mut changes, GST_BLACKLIST_ENV, Some("onnx"));
    proof {
        assert(changes_view(changes@) =~= planned_changes(policy));
    }
    LinuxWebkitEnvPlan { policy, changes }
}

pub open spec fn or_dash(o: Option<Seq<char>>) -> Seq<char> {
    match o {
        Some(v) => v,
        None => "-"@,
    }
}

pub open spec fn bool_text(b: bool) -> Seq<char> {
    if b {
        "true"@
    } else {
        "false"@
    }
}

/// The one-line log record of a decision.
pub open spec fn policy_line(p: LinuxWebkitEnvPolicy) -> Seq<char> {
    "linux_webkit_policy session="@ + p.session@ + " xdg_session_type="@ + or_dash(
        opt_view(p.xdg_session_type),
    ) + " wayland_display="@ + or_dash(opt_view(p.wayland_display)) + " display="@ + or_dash(
        opt_view(p.x11_display),
    ) + " safe_mode_enabled="@ + bool_text(p.safe_mode_enabled) + " existing_dmabuf="@
        + or_dash(opt_view(p.existing_dmabuf_value)) + " applied_dmabuf_disable="@ + bool_text(
        p.applied_dmabuf_disable,
    ) + " reason=\""@ + p.decision_reason@ + "\""@
}

fn or_dash_str(o: &Option<String>) -> (r: &str)
    ensures
        r@ == or_dash(opt_view(*o)),
{
    match o {
        Some(v) => v.as_str(),
        None => "-",
    }
}

fn bool_str(b: bool) -> (r: &'static str)
    ensures
        r@ == bool_text(b),
{
    if b {
        "true"
    } else {
        "false"
    }
}

/// Renders a decision as one log line.
pub fn format_linux_webkit_policy(policy: &LinuxWebkitEnvPolicy) -> (r: String)
    ensures
        r@ == policy_line(*policy),
{
    let mut r = String::from_str("linux_webkit_policy session=");
    r.append(policy.session.as_str());
    r.append(" xdg_session_type=");
    r.append(or_dash_str(&policy.xdg_session_type));
    r.append(" wayland_display=");
    r.append(or_dash_str(&policy.wayland_display));
    r.append(" display=");
    r.append(or_dash_str(&policy.x11_display));
    r.append(" safe_mode_enabled=");
    r.append(bool_str(policy.safe_mode_enabled));
    r.append(" existing_dmabuf=");
    r.append(or_dash_str(&policy.existing_dmabuf_value));
    r.append(" applied_dmabuf_disable=");
    r.append(bool_str(policy.applied_dmabuf_disable));
    r.append(" reason=\"");
    r.append(policy.decision_reason.as_str());
    r.append("\"");
    r
}

proof fn lemma_literal_session(s: Seq<char>)
    requires
        s == "wayland"@ || s == "x11"@ || s == "unknown"@,
    ensures
        normalized_session_type(Some(s)) == Some(s),
{
    reveal_strlit("wayland");
    reveal_strlit("x11");
    reveal_strlit("unknown");
    lemma_trimmed_fixed(s);
    assert(ascii_lower(s) =~= s);
}

/// Session classification is total and idempotent: the session is `wayland`,
/// `x11`, the trimmed lower-cased session type, or `unknown`, and classifying
/// that session again, with no display handle present, gives it back.
pub proof fn lemma_session_classification(
    session_type: Option<Seq<char>>,
    wayland_present: bool,
    x11_present: bool,
)
    ensures
        ({
            let s = session_of(session_type, wayland_present, x11_present);
            s == "wayland"@ || s == "x11"@ || s == "unknown"@ || Some(s)
                == normalized_session_type(session_type)
        }),
        session_of(Some(session_of(session_type, wayland_present, x11_present)), false, false)
            == session_of(session_type, wayland_present, x11_present),
{
    let s = session_of(session_type, wayland_present, x11_present);
    if s == "wayland"@ || s == "x11"@ || s == "unknown"@ {
        lemma_literal_session(s);
        if s == "unknown"@ {
            reveal_strlit("wayland");
            reveal_strlit("x11");
            reveal_strlit("unknown");
        }
    } else {
        let v = session_type->Some_0;
        let t = trimmed(v);
        lemma_trimmed_ends(v);
        lemma_ascii_lower_facts(t);
        lemma_trimmed_fixed(ascii_lower(t));
    }
}

} // verus!
