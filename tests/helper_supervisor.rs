use world_monitor::supervisor::{
    choose_resource_layout, common_node_locations, format_local_token, next_kill_step,
    open_in_shell, open_path_in_shell, resolve_node_binary, Candidate, HostOs, KillStep,
    LaunchInputs, LocalApiState, PollResult, ResourceLayout,
};

fn inputs(a: u64, b: u64) -> LaunchInputs {
    LaunchInputs {
        script: r"\\?\C:\app\sidecar\local-api-server.mjs".to_string(),
        script_exists: true,
        script_dir: Some(r"C:\app\sidecar".to_string()),
        resource_root: r"\\?\UNC\srv\share\res".to_string(),
        node_binary: Some("/usr/bin/node".to_string()),
        secrets: vec![("GROQ_API_KEY".to_string(), "k".to_string())],
        local_first: true,
        convex_url: None,
        token_hashes: (a, b),
    }
}

#[test]
fn token_is_two_fixed_width_hex_words() {
    assert_eq!(
        format_local_token(0x1f, 0xdead_beef_0000_0001),
        "000000000000001fdeadbeef00000001"
    );
    assert_eq!(format_local_token(u64::MAX, 0), "ffffffffffffffff0000000000000000");
}

#[test]
fn start_plans_a_launch_with_the_full_environment() {
    let mut state: LocalApiState<u32> = LocalApiState::new();
    assert_eq!(state.get_local_api_token(), Err("Token not generated".to_string()));
    let spec = state.start_local_api(inputs(1, 2)).unwrap().unwrap();
    assert_eq!(spec.program, "/usr/bin/node");
    assert_eq!(spec.script_arg, r"C:\app\sidecar\local-api-server.mjs");
    assert_eq!(spec.current_dir.as_deref(), Some(r"C:\app\sidecar"));
    let env: Vec<(&str, &str)> = spec.env.iter().map(|(k, v)| (k.as_str(), v.as_str())).collect();
    assert_eq!(
        env,
        vec![
            ("LOCAL_API_PORT", "46123"),
            ("LOCAL_API_RESOURCE_DIR", r"\\srv\share\res"),
            ("LOCAL_API_MODE", "tauri-sidecar"),
            ("LOCAL_API_TOKEN", "00000000000000010000000000000002"),
            ("GROQ_API_KEY", "k"),
            ("LOCAL_API_LOCAL_FIRST", "true"),
            ("FORENSICS_WORKER_URL", "http://127.0.0.1:46123"),
            ("FORENSICS_WORKER_SHARED_SECRET", "00000000000000010000000000000002"),
        ]
    );
    assert_eq!(state.get_local_api_token(), Ok("00000000000000010000000000000002".to_string()));
}

#[test]
fn second_start_without_stop_keeps_one_child() {
    let mut state: LocalApiState<u32> = LocalApiState::new();
    assert!(state.start_local_api(inputs(3, 4)).unwrap().is_some());
    state.record_child(7);
    assert!(state.is_running());
    assert!(state.start_local_api(inputs(5, 6)).unwrap().is_none());
    assert_eq!(state.stop_local_api(), Some(7));
    assert_eq!(state.stop_local_api(), None);
}

#[test]
fn restart_keeps_the_token() {
    let mut state: LocalApiState<u32> = LocalApiState::new();
    state.start_local_api(inputs(0xab, 0xcd)).unwrap();
    state.record_child(1);
    let before = state.get_local_api_token().unwrap();
    assert_eq!(state.stop_local_api(), Some(1));
    let mut next = inputs(7, 8);
    next.local_first = false;
    next.convex_url = Some("https://c.example".to_string());
    let spec = state.start_local_api(next).unwrap().unwrap();
    assert_eq!(state.get_local_api_token().unwrap(), before);
    assert!(spec.env.contains(&("LOCAL_API_TOKEN".to_string(), "00000000000000ab00000000000000cd".to_string())));
    assert!(spec.env.contains(&("LOCAL_API_LOCAL_FIRST".to_string(), "false".to_string())));
    assert_eq!(
        spec.env.last(),
        Some(&("CONVEX_URL".to_string(), "https://c.example".to_string()))
    );
}

#[test]
fn start_fails_without_script_or_runtime() {
    let mut state: LocalApiState<u32> = LocalApiState::new();
    let mut i = inputs(3, 4);
    i.script_exists = false;
    assert_eq!(
        state.start_local_api(i).err(),
        Some(r"Local API sidecar script missing at \\?\C:\app\sidecar\local-api-server.mjs".to_string())
    );
    let mut i = inputs(3, 4);
    i.node_binary = None;
    assert_eq!(
        state.start_local_api(i).err(),
        Some("Node.js executable not found. Install Node 18+ or set LOCAL_API_NODE_BIN".to_string())
    );
    assert!(state.get_local_api_token().is_err());
    assert!(!state.is_running());
}

#[test]
fn graceful_stop_reaps_a_helper_that_exits_in_time() {
    assert_eq!(next_kill_step(true, PollResult::Running, 0), KillStep::Wait);
    assert_eq!(next_kill_step(true, PollResult::Running, 1900), KillStep::Wait);
    assert_eq!(next_kill_step(true, PollResult::Exited, 1900), KillStep::Reap);
    let mut elapsed = 0u64;
    let exit_at = 700u64;
    loop {
        let poll = if elapsed >= exit_at { PollResult::Exited } else { PollResult::Running };
        match next_kill_step(true, poll, elapsed) {
            KillStep::Wait => elapsed += 100,
            KillStep::Reap => break,
            KillStep::ForceKill => panic!("forced kill of a helper that exited"),
        }
    }
    assert_eq!(elapsed, 700);
}

#[test]
fn stubborn_helper_is_killed_after_the_deadline() {
    let mut elapsed = 0u64;
    loop {
        match next_kill_step(true, PollResult::Running, elapsed) {
            KillStep::Wait => elapsed += 100,
            KillStep::ForceKill => break,
            KillStep::Reap => panic!("reaped a running helper"),
        }
    }
    assert_eq!(elapsed, 2000);
    assert_eq!(next_kill_step(true, PollResult::Failed, 0), KillStep::ForceKill);
    assert_eq!(next_kill_step(false, PollResult::Running, 0), KillStep::ForceKill);
}

#[test]
fn runtime_resolution_takes_the_first_file() {
    let c = |p: &str, f: bool| Candidate { path: p.to_string(), is_file: f };
    assert_eq!(
        resolve_node_binary(vec![c("/x/node", false), c("/y/node", true), c("/z/node", true)]),
        Some("/y/node".to_string())
    );
    assert_eq!(resolve_node_binary(vec![c("/x/node", false)]), None);
    assert_eq!(resolve_node_binary(vec![]), None);
    assert_eq!(common_node_locations(true).len(), 2);
    assert_eq!(common_node_locations(false)[2], "/usr/bin/node");
}

#[test]
fn resource_layout_prefers_the_direct_directory() {
    assert_eq!(choose_resource_layout(true, true), ResourceLayout::Direct);
    assert_eq!(choose_resource_layout(false, true), ResourceLayout::Lifted);
    assert_eq!(choose_resource_layout(false, false), ResourceLayout::Direct);
}

#[test]
fn shell_openers_per_platform() {
    let c = open_in_shell(HostOs::MacOs, "https://example.com");
    assert_eq!((c.program.as_str(), c.arg.as_str()), ("open", "https://example.com"));
    assert_eq!(open_path_in_shell(HostOs::Windows, r"C:\logs").program, "explorer");
    assert_eq!(open_path_in_shell(HostOs::OtherUnix, "/tmp/logs").program, "xdg-open");
}
