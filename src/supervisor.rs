use vstd::prelude::*;
use vstd::string::*;
use crate::policy::bool_text;
use crate::text::opt_view;
use crate::vault::{pair_view, pairs_view, string_views};

verus! {

/// Port the helper listens on.
pub const LOCAL_API_PORT: &'static str = "46123";

/// How long a helper is given to exit after the termination signal.
pub const GRACE_MS: u64 = 2000;

/// Interval between two liveness polls while waiting.
pub const POLL_MS: u64 = 100;

pub open spec fn ext_prefix() -> Seq<char> {
    seq!['\\', '\\', '?', '\\']
}

pub open spec fn unc_prefix() -> Seq<char> {
    seq!['\\', '\\', '?', '\\', 'U', 'N', 'C', '\\']
}

pub open spec fn has_prefix(s: Seq<char>, p: Seq<char>) -> bool {
    p.len() <= s.len() && s.take(p.len() as int) == p
}

/// A path without its extended-length prefix; a UNC path keeps its `\\` root.
pub open spec fn sanitized_path(p: Seq<char>) -> Seq<char> {
    if has_prefix(p, unc_prefix()) {
        seq!['\\', '\\'] + p.skip(unc_prefix().len() as int)
    } else if has_prefix(p, ext_prefix()) {
        p.skip(ext_prefix().len() as int)
    } else {
        p
    }
}

pub fn starts_with(s: &str, p: &str) -> (r: bool)
    ensures
        r == has_prefix(s@, p@),
{
    let n = s.unicode_len();
    let m = p.unicode_len();
    if m > n {
        return false;
    }
    let mut i: usize = 0;
    while i < m
        invariant
            m <= n,
            n == s@.len(),
            m == p@.len(),
            0 <= i <= m,
            forall|j: int| 0 <= j < i ==> s@[j] == p@[j],
        decreases m - i,
    {
        if s.get_char(i) != p.get_char(i) {
            assert(s@.take(m as int)[i as int] != p@[i as int]);
            return false;
        }
        i = i + 1;
    }
    assert(s@.take(m as int) =~= p@);
    true
}

/// Strips the extended-length prefix from a path handed to the helper's runtime.
pub fn sanitize_path_for_node(p: &str) -> (r: String)
    ensures
        r@ == sanitized_path(p@),
{
    let unc = "\\\\?\\UNC\\";
    let ext = "\\\\?\\";
    proof {
        reveal_strlit("\\\\?\\UNC\\");
        reveal_strlit("\\\\?\\");
        reveal_strlit("\\\\");
        assert(unc@ =~= unc_prefix());
        assert(ext@ =~= ext_prefix());
    }
    let n = p.unicode_len();
    if starts_with(p, unc) {
        let mut r = String::from_str("\\\\");
        r.append(p.substring_char(8, n));
        assert(r@ =~= sanitized_path(p@));
        r
    } else if starts_with(p, ext) {
        let r = String::from_str(p.substring_char(4, n));
        assert(r@ =~= sanitized_path(p@));
        r
    } else {
        String::from_str(p)
    }
}

pub open spec fn hex_alphabet() -> Seq<char> {
    seq!['0', '1', '2', '3', '4', '5', '6', '7', '8', '9', 'a', 'b', 'c', 'd', 'e', 'f']
}

/// The last `n` hexadecimal digits of `x`, most significant first.
pub open spec fn hex_digits(x: nat, n: nat) -> Seq<char>
    decreases n,
{
    if n == 0 {
        Seq::empty()
    } else {
        hex_digits(x / 16, (n - 1) as nat).push(hex_alphabet()[(x % 16) as int])
    }
}

/// The helper's token: two 64-bit values as sixteen hexadecimal digits each.
pub open spec fn token_text(a: u64, b: u64) -> Seq<char> {
    hex_digits(a as nat, 16) + hex_digits(b as nat, 16)
}

fn hex_digit(d: u64) -> (r: &'static str)
    requires
        d < 16,
    ensures
        r@ == seq![hex_alphabet()[d as int]],
{
    proof {
        reveal_strlit("0");
        reveal_strlit("1");
        reveal_strlit("2");
        reveal_strlit("3");
        reveal_strlit("4");
        reveal_strlit("5");
        reveal_strlit("6");
        reveal_strlit("7");
        reveal_strlit("8");
        reveal_strlit("9");
        reveal_strlit("a");
        reveal_strlit("b");
        reveal_strlit("c");
        reveal_strlit("d");
        reveal_strlit("e");
        reveal_strlit("f");
    }
    let r = if d == 0 {
        "0"
    } else if d == 1 {
        "1"
    } else if d == 2 {
        "2"
    } else if d == 3 {
        "3"
    } else if d == 4 {
        "4"
    } else if d == 5 {
        "5"
    } else if d == 6 {
        "6"
    } else if d == 7 {
        "7"
    } else if d == 8 {
        "8"
    } else if d == 9 {
        "9"
    } else if d == 10 {
        "a"
    } else if d == 11 {
        "b"
    } else if d == 12 {
        "c"
    } else if d == 13 {
        "d"
    } else if d == 14 {
        "e"
    } else {
        "f"
    };
    assert(r@ =~= seq![hex_alphabet()[d as int]]);
    r
}

fn append_hex(out: &mut String, x: u64, n: u64)
    ensures
        final(out)@ == old(out)@ + hex_digits(x as nat, n as nat),
    decreases n,
{
    if n > 0 {
        append_hex(out, x / 16, n - 1);
        out.append(hex_digit(x % 16));
        assert(final(out)@ =~= old(out)@ + hex_digits(x as nat, n as nat));
    }
}

/// Formats the helper's token from two hash values, sixteen hex digits each.
pub fn format_local_token(a: u64, b: u64) -> (r: String)
    ensures
        r@ == token_text(a, b),
        r@.len() == 32,
{
    let mut r = String::new();
    append_hex(&mut r, a, 16);
    append_hex(&mut r, b, 16);
    assert(r@ =~= token_text(a, b));
    proof {
        lemma_hex_len(a as nat, 16);
        lemma_hex_len(b as nat, 16);
    }
    r
}

proof fn lemma_hex_len(x: nat, n: nat)
    ensures
        hex_digits(x, n).len() == n,
    decreases n,
{
    if n > 0 {
        lemma_hex_len(x / 16, (n - 1) as nat);
    }
}

/// What a liveness poll of the stopping helper reported.
#[derive(Clone, Copy, Debug, PartialEq, Eq, Structural)]
pub enum PollResult {
    Exited,
    Running,
    Failed,
}

/// The next step of a graceful-then-forced shutdown.
#[derive(Clone, Copy, Debug, PartialEq, Eq, Structural)]
pub enum KillStep {
    /// The helper has exited: reap it and stop.
    Reap,
    /// Sleep one poll interval, then poll again.
    Wait,
    /// Kill the helper unconditionally, then reap it.
    ForceKill,
}

/// The step after a poll taken `elapsed_ms` after the termination signal.
/// Without signal semantics the helper is killed at once.
pub open spec fn kill_step(signals: bool, poll: PollResult, elapsed_ms: u64) -> KillStep {
    if !signals {
        KillStep::ForceKill
    } else {
        match poll {
            PollResult::Exited => KillStep::Reap,
            PollResult::Running => if elapsed_ms < GRACE_MS {
                KillStep::Wait
            } else {
                KillStep::ForceKill
            },
            PollResult::Failed => KillStep::ForceKill,
        }
    }
}

/// Decides the next step of stopping the helper.
pub fn next_kill_step(signals: bool, poll: PollResult, elapsed_ms: u64) -> (r: KillStep)
    ensures
        r == kill_step(signals, poll, elapsed_ms),
{
    if !signals {
        KillStep::ForceKill
    } else {
        match poll {
            PollResult::Exited => KillStep::Reap,
            PollResult::Running => if elapsed_ms < GRACE_MS {
                KillStep::Wait
            } else {
                KillStep::ForceKill
            },
            PollResult::Failed => KillStep::ForceKill,
        }
    }
}

/// A shutdown with signals whose polls come every `POLL_MS` from `t`
/// onwards, against a helper that exits at `exit_at` (never, when absent):
/// the step that ends it.
pub open spec fn shutdown_from(exit_at: Option<nat>, t: nat) -> KillStep
    decreases (GRACE_MS + POLL_MS) as int - t,
{
    let poll = match exit_at {
        Some(e) => if e <= t {
            PollResult::Exited
        } else {
            PollResult::Running
        },
        None => PollResult::Running,
    };
    if t >= GRACE_MS as nat {
        kill_step(true, poll, t as u64)
    } else {
        match kill_step(true, poll, t as u64) {
            KillStep::Wait => shutdown_from(exit_at, t + POLL_MS as nat),
            other => other,
        }
    }
}

/// A helper that exits within the grace window is reaped and never killed;
/// one that ignores the termination signal is killed once the window has passed.
pub proof fn lemma_graceful_then_forced(exit_at: Option<nat>, t: nat)
    requires
        t <= GRACE_MS as nat,
    ensures
        exit_at matches Some(e) && e <= GRACE_MS as nat ==> shutdown_from(exit_at, t) == KillStep::Reap,
        exit_at is None ==> shutdown_from(exit_at, t) == KillStep::ForceKill,
    decreases (GRACE_MS + POLL_MS) as int - t,
{
    if t < GRACE_MS as nat {
        let next = (t + POLL_MS as nat) as nat;
        if next <= GRACE_MS as nat {
            lemma_graceful_then_forced(exit_at, next);
        } else {
            assert(shutdown_from(exit_at, next) == kill_step(
                true,
                match exit_at {
                    Some(e) => if e <= next {
                        PollResult::Exited
                    } else {
                        PollResult::Running
                    },
                    None => PollResult::Running,
                },
                next as u64,
            ));
        }
    }
}

/// A candidate path for the helper's runtime, and whether a file stands there.
pub struct Candidate {
    pub path: String,
    pub is_file: bool,
}

pub open spec fn first_file(c: Seq<Candidate>) -> Option<Seq<char>>
    decreases c.len(),
{
    if c.len() == 0 {
        None
    } else if c[0].is_file {
        Some(c[0].path@)
    } else {
        first_file(c.drop_first())
    }
}

/// The runtime executable: the first candidate that is a file, taken in the
/// order explicit override, bundled runtime, search path, common locations.
pub fn resolve_node_binary(candidates: Vec<Candidate>) -> (r: Option<String>)
    ensures
        opt_view(r) == first_file(candidates@),
{
    let mut i: usize = 0;
    assert(candidates@.skip(0) =~= candidates@);
    while i < candidates.len()
        invariant
            0 <= i <= candidates@.len(),
            first_file(candidates@.skip(i as int)) == first_file(candidates@),
        decreases candidates.len() - i,
    {
        assert(candidates@.skip(i as int).drop_first() =~= candidates@.skip(i + 1));
        if candidates[i].is_file {
            return Some(candidates[i].path.clone());
        }
        i = i + 1;
    }
    None
}

/// Where the helper's runtime is commonly installed, per platform family.
pub open spec fn common_locations(windows: bool) -> Seq<Seq<char>> {
    if windows {
        seq![
            "C:\\Program Files\\nodejs\\node.exe"@,
            "C:\\Program Files (x86)\\nodejs\\node.exe"@,
        ]
    } else {
        seq![
            "/opt/homebrew/bin/node"@,
            "/usr/local/bin/node"@,
            "/usr/bin/node"@,
            "/opt/local/bin/node"@,
        ]
    }
}

/// The common install locations of the helper's runtime, in search order.
pub fn common_node_locations(windows: bool) -> (r: Vec<String>)
    ensures
        string_views(r@) == common_locations(windows),
{
    let r = if windows {
        vec![
            String::from_str("C:\\Program Files\\nodejs\\node.exe"),
            String::from_str("C:\\Program Files (x86)\\nodejs\\node.exe"),
        ]
    } else {
        vec![
            String::from_str("/opt/homebrew/bin/node"),
            String::from_str("/usr/local/bin/node"),
            String::from_str("/usr/bin/node"),
            String::from_str("/opt/local/bin/node"),
        ]
    };
    assert(string_views(r@) =~= common_locations(windows));
    r
}

/// Which directory the helper is given as its resource root.
#[derive(Clone, Copy, Debug, PartialEq, Eq, Structural)]
pub enum ResourceLayout {
    /// The bundled resource directory itself.
    Direct,
    /// The `_up_` directory a packager nested the resources into.
    Lifted,
}

/// The resource root of a packaged build: the resource directory when its
/// `api` subdirectory exists, else the lifted one when that holds `api`.
pub fn choose_resource_layout(direct_api_exists: bool, lifted_api_exists: bool) -> (r:
    ResourceLayout)
    ensures
        r == (if !direct_api_exists && lifted_api_exists {
            ResourceLayout::Lifted
        } else {
            ResourceLayout::Direct
        }),
{
    if direct_api_exists {
        ResourceLayout::Direct
    } else if lifted_api_exists {
        ResourceLayout::Lifted
    } else {
        ResourceLayout::Direct
    }
}

/// What starting the helper needs to know of the host.
pub struct LaunchInputs {
    /// The helper's script.
    pub script: String,
    /// Whether a file stands at `script`.
    pub script_exists: bool,
    /// The directory that holds the script, when it has one.
    pub script_dir: Option<String>,
    /// The resource root handed to the helper.
    pub resource_root: String,
    /// The resolved runtime executable, when one was found.
    pub node_binary: Option<String>,
    /// The cached secrets, `(name, value)`.
    pub secrets: Vec<(String, String)>,
    /// The local-first preference.
    pub local_first: bool,
    /// The external service URL, when one is configured.
    pub convex_url: Option<String>,
    /// Two hash values (of the process id and of the time) from which the
    /// token is formatted, used only when none is cached yet.
    pub token_hashes: (u64, u64),
}

/// How to spawn the helper.
pub struct LaunchSpec {
    pub program: String,
    pub script_arg: String,
    pub current_dir: Option<String>,
    pub env: Vec<(String, String)>,
}

/// The supervisor's state as the contracts see it.
pub struct HelperView {
    pub running: bool,
    pub token: Option<Seq<char>>,
}

/// The process-wide helper slot: at most one child, and the token once generated.
pub struct LocalApiState<C> {
    child: Option<C>,
    token: Option<String>,
}

pub open spec fn script_missing_message(script: Seq<char>) -> Seq<char> {
    "Local API sidecar script missing at "@ + script
}

pub open spec fn node_missing_message() -> Seq<char> {
    "Node.js executable not found. Install Node 18+ or set LOCAL_API_NODE_BIN"@
}

/// Whether a start request on state `s` leads to a spawn.
pub open spec fn launches(s: HelperView, i: LaunchInputs) -> bool {
    !s.running && i.script_exists && i.node_binary is Some
}

/// The token a start uses: the cached one, else the one formatted from the hashes.
pub open spec fn start_token(cached: Option<Seq<char>>, candidate: Seq<char>) -> Seq<char> {
    match cached {
        Some(t) => t,
        None => candidate,
    }
}

/// The state once a start request has been decided (before any spawn).
pub open spec fn start_next(s: HelperView, i: LaunchInputs) -> HelperView {
    if launches(s, i) {
        HelperView { running: false, token: Some(start_token(s.token, token_text(i.token_hashes.0, i.token_hashes.1))) }
    } else {
        s
    }
}

/// The state once a spawned child is recorded.
pub open spec fn recorded(s: HelperView) -> HelperView {
    HelperView { running: true, token: s.token }
}

/// The state once the child is stopped.
pub open spec fn stopped(s: HelperView) -> HelperView {
    HelperView { running: false, token: s.token }
}

/// A whole start whose spawn succeeds.
pub open spec fn started(s: HelperView, i: LaunchInputs) -> HelperView {
    if launches(s, i) {
        recorded(start_next(s, i))
    } else {
        s
    }
}

/// The helper's environment.
pub open spec fn launch_env(
    token: Seq<char>,
    resource_root: Seq<char>,
    secrets: Seq<(Seq<char>, Seq<char>)>,
    local_first: bool,
    convex_url: Option<Seq<char>>,
) -> Seq<(Seq<char>, Seq<char>)> {
    seq![
        ("LOCAL_API_PORT"@, LOCAL_API_PORT@),
        ("LOCAL_API_RESOURCE_DIR"@, sanitized_path(resource_root)),
        ("LOCAL_API_MODE"@, "tauri-sidecar"@),
        ("LOCAL_API_TOKEN"@, token),
    ] + secrets + seq![
        ("LOCAL_API_LOCAL_FIRST"@, bool_text(local_first)),
        ("FORENSICS_WORKER_URL"@, "http://127.0.0.1:"@ + LOCAL_API_PORT@),
        ("FORENSICS_WORKER_SHARED_SECRET"@, token),
    ] + match convex_url {
        Some(u) => seq![("CONVEX_URL"@, u)],
        None => Seq::empty(),
    }
}

fn push_pair(v: &mut Vec<(String, String)>, k: &str, val: &str)
    ensures
        pairs_view(final(v)@) == pairs_view(old(v)@).push((k@, val@)),
{
    v.push((String::from_str(k), String::from_str(val)));
    assert(pairs_view(v@) =~= pairs_view(old(v)@).push((k@, val@)));
}

fn build_env(
    token: &str,
    resource_root: &str,
    secrets: &Vec<(String, String)>,
    local_first: bool,
    convex_url: &Option<String>,
) -> (r: Vec<(String, String)>)
    ensures
        pairs_view(r@) == launch_env(
            token@,
            resource_root@,
            pairs_view(secrets@),
            local_first,
            opt_view(*convex_url),
        ),
{
    let mut env: Vec<(String, String)> = Vec::new();
    push_pair(&mut env, "LOCAL_API_PORT", LOCAL_API_PORT);
    let root = sanitize_path_for_node(resource_root);
    push_pair(&mut env, "LOCAL_API_RESOURCE_DIR", root.as_str());
    push_pair(&mut env, "LOCAL_API_MODE", "tauri-sidecar");
    push_pair(&mut env, "LOCAL_API_TOKEN", token);
    let ghost head = pairs_view(env@);
    let mut i: usize = 0;
    while i < secrets.len()
        invariant
            0 <= i <= secrets@.len(),
            pairs_view(env@) == head + pairs_view(secrets@).take(i as int),
        decreases secrets.len() - i,
    {
        push_pair(&mut env, secrets[i].0.as_str(), secrets[i].1.as_str());
        assert(pairs_view(secrets@).take(i + 1) =~= pairs_view(secrets@).take(i as int).push(
            pair_view(secrets@[i as int]),
        ));
        i = i + 1;
    }
    assert(pairs_view(secrets@).take(i as int) =~= pairs_view(secrets@));
    let flag = if local_first {
        "true"
    } else {
        "false"
    };
    push_pair(&mut env, "LOCAL_API_LOCAL_FIRST", flag);
    let mut url = String::from_str("http://127.0.0.1:");
    url.append(LOCAL_API_PORT);
    push_pair(&mut env, "FORENSICS_WORKER_URL", url.as_str());
    push_pair(&mut env, "FORENSICS_WORKER_SHARED_SECRET", token);
    match convex_url {
        Some(u) => {
            push_pair(&mut env, "CONVEX_URL", u.as_str());
        },
        None => {},
    }
    assert(pairs_view(env@) =~= launch_env(
        token@,
        resource_root@,
        pairs_view(secrets@),
        local_first,
        opt_view(*convex_url),
    ));
    env
}

fn copy_opt(o: &Option<String>) -> (r: Option<String>)
    ensures
        opt_view(r) == opt_view(*o),
{
    match o {
        Some(s) => Some(s.clone()),
        None => None,
    }
}

impl<C> LocalApiState<C> {
    pub closed spec fn view(&self) -> HelperView {
        HelperView { running: self.child is Some, token: opt_view(self.token) }
    }

    /// No child and no token yet.
    pub fn new() -> (r: Self)
        ensures
            r.view() == (HelperView { running: false, token: None }),
    {
        LocalApiState { child: None, token: None }
    }

    /// Whether a child is recorded.
    pub fn is_running(&self) -> (r: bool)
        ensures
            r == self.view().running,
    {
        self.child.is_some()
    }

    /// The token handed to the helper; an error before the first start.
    pub fn get_local_api_token(&self) -> (r: Result<String, String>)
        ensures
            match self.view().token {
                Some(t) => r is Ok && r->Ok_0@ == t,
                None => r is Err && r->Err_0@ == "Token not generated"@,
            },
    {
        match &self.token {
            Some(t) => Ok(t.clone()),
            None => Err(String::from_str("Token not generated")),
        }
    }

    /// Decides a start request. With a child recorded this is a no-op
    /// success (`Ok(None)`). Otherwise the script and the runtime must be
    /// there; the token is formatted once (from the hashes) and then kept;
    /// and the result says how to spawn the helper.
    pub fn start_local_api(&mut self, inputs: LaunchInputs) -> (r: Result<Option<LaunchSpec>, String>)
        ensures
            final(self).view() == start_next(old(self).view(), inputs),
            launches(old(self).view(), inputs) && old(self).view().token is None ==> final(self).view().token == Some(token_text(inputs.token_hashes.0, inputs.token_hashes.1))
                && token_text(inputs.token_hashes.0, inputs.token_hashes.1).len() == 32,
            old(self).view().running ==> r matches Ok(None),
            !old(self).view().running && !inputs.script_exists ==> r is Err && r->Err_0@
                == script_missing_message(inputs.script@),
            !old(self).view().running && inputs.script_exists && inputs.node_binary is None ==> r
                is Err && r->Err_0@ == node_missing_message(),
            launches(old(self).view(), inputs) ==> (r matches Ok(Some(spec)) && ({
                let token = start_token(
                    old(self).view().token,
                    token_text(inputs.token_hashes.0, inputs.token_hashes.1),
                );
                &&& spec.program@ == inputs.node_binary->Some_0@
                &&& spec.script_arg@ == sanitized_path(inputs.script@)
                &&& opt_view(spec.current_dir) == opt_view(inputs.script_dir)
                &&& pairs_view(spec.env@) == launch_env(
                    token,
                    inputs.resource_root@,
                    pairs_view(inputs.secrets@),
                    inputs.local_first,
                    opt_view(inputs.convex_url),
                )
            })),
    {
        if self.child.is_some() {
            return Ok(None);
        }
        proof {
            lemma_hex_len(inputs.token_hashes.0 as nat, 16);
            lemma_hex_len(inputs.token_hashes.1 as nat, 16);
        }
        if !inputs.script_exists {
            let mut msg = String::from_str("Local API sidecar script missing at ");
            msg.append(inputs.script.as_str());
            return Err(msg);
        }
        let program = match &inputs.node_binary {
            Some(n) => n.clone(),
            None => {
                return Err(
                    String::from_str(
                        "Node.js executable not found. Install Node 18+ or set LOCAL_API_NODE_BIN",
                    ),
                );
            },
        };
        let token = match &self.token {
            Some(t) => t.clone(),
            None => format_local_token(inputs.token_hashes.0, inputs.token_hashes.1),
        };
        self.token = Some(token.clone());
        let env = build_env(
            token.as_str(),
            inputs.resource_root.as_str(),
            &inputs.secrets,
            inputs.local_first,
            &inputs.convex_url,
        );
        let spec = LaunchSpec {
            program,
            script_arg: sanitize_path_for_node(inputs.script.as_str()),
            current_dir: copy_opt(&inputs.script_dir),
            env,
        };
        Ok(Some(spec))
    }

    /// Records the child spawned after a start.
    pub fn record_child(&mut self, child: C)
        requires
            !old(self).view().running,
        ensures
            final(self).view() == recorded(old(self).view()),
    {
        self.child = Some(child);
    }

    /// Takes the recorded child out, for the caller to shut it down; the
    /// token is kept for the next start.
    pub fn stop_local_api(&mut self) -> (r: Option<C>)
        ensures
            final(self).view() == stopped(old(self).view()),
            r is Some == old(self).view().running,
    {
        self.child.take()
    }
}

/// Starting twice without a stop in between spawns at most once: once a
/// start has recorded a child, a second start launches nothing and leaves
/// the state as it was.
pub proof fn lemma_start_twice_one_child(s: HelperView, first: LaunchInputs, second: LaunchInputs)
    ensures
        started(s, first).running ==> !launches(started(s, first), second) && started(
            started(s, first),
            second,
        ) == started(s, first),
        launches(s, first) ==> started(s, first).running,
{
}

/// A stop followed by a start (the restart on a preference change) keeps
/// the cached token, and the restarted helper is handed that same token.
pub proof fn lemma_restart_keeps_token(s: HelperView, i: LaunchInputs)
    requires
        s.token is Some,
    ensures
        started(stopped(s), i).token == s.token,
        start_next(stopped(s), i).token == s.token,
        start_token(stopped(s).token, token_text(i.token_hashes.0, i.token_hashes.1))
            == s.token->Some_0,
{
}

/// The platform whose file browser opens paths and URLs.
#[derive(Clone, Copy, Debug, PartialEq, Eq, Structural)]
pub enum HostOs {
    MacOs,
    Windows,
    OtherUnix,
}

/// A command that opens something in the platform's file browser.
pub struct ShellCommand {
    pub program: String,
    pub arg: String,
}

pub open spec fn opener_of(os: HostOs) -> Seq<char> {
    match os {
        HostOs::MacOs => "open"@,
        HostOs::Windows => "explorer"@,
        HostOs::OtherUnix => "xdg-open"@,
    }
}

/// The command that opens `arg` with the platform's opener.
pub fn open_in_shell(os: HostOs, arg: &str) -> (r: ShellCommand)
    ensures
        r.program@ == opener_of(os),
        r.arg@ == arg@,
{
    let program = match os {
        HostOs::MacOs => String::from_str("open"),
        HostOs::Windows => String::from_str("explorer"),
        HostOs::OtherUnix => String::from_str("xdg-open"),
    };
    ShellCommand { program, arg: String::from_str(arg) }
}

/// The command that opens a path in the platform's file browser.
pub fn open_path_in_shell(os: HostOs, path: &str) -> (r: ShellCommand)
    ensures
        r.program@ == opener_of(os),
        r.arg@ == path@,
{
    open_in_shell(os, path)
}

} // verus!
