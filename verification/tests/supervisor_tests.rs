use openconsole::ipc::SupervisorRequest;
use openconsole::manifest::{
    all_game_references, candidate_manifest_paths, choose_manifest_path, copy_game_entry, default_show_title, env_get,
    position_of_id, resolve_game_section, GameEntry, GameManifest, GameReference, DEFAULT_MANIFEST_PATH,
};
use openconsole::supervisor::{
    decide_request, display_env_override, executable_process_pid, expected_game_executable, game_executable,
    game_monitor_step, game_process_pid, launch_outcome, parse_proc_pid, path_components_exec, path_extension_exec,
    launch_plan, reboot_outcome, resolve_requested_game, sanitize_game_args, EnvChange, GameMonitorState, SupervisorStep,
    WrapperPoll,
};

fn strings(v: &[&str]) -> Vec<String> {
    v.iter().map(|s| s.to_string()).collect()
}

fn game(id: &str, env: &[(&str, &str)], remove: &[&str]) -> GameEntry {
    GameEntry {
        id: id.to_string(),
        title: format!("{id} title"),
        showtitle: default_show_title(),
        subtitle: String::new(),
        description: String::new(),
        developer: String::new(),
        image: String::new(),
        screenshots: Vec::new(),
        command: "/bin/true".to_string(),
        args: Vec::new(),
        cwd: None,
        env: env.iter().map(|(k, v)| (k.to_string(), v.to_string())).collect(),
        env_remove: strings(remove),
    }
}

fn refs(ids: &[&str]) -> Vec<GameReference> {
    ids.iter().map(|i| GameReference { id: i.to_string() }).collect()
}

fn manifest() -> GameManifest {
    GameManifest {
        games: vec![game("pirate", &[], &[]), game("puzzle", &[], &[]), game("pirate", &[("A", "1")], &[])],
        all_games: Vec::new(),
        top_games: refs(&["puzzle", "missing", "pirate"]),
        new_games: Vec::new(),
    }
}

#[test]
fn manifest_lookups() {
    let m = manifest();
    assert_eq!(position_of_id(&m.games, "pirate"), Some(0));
    assert_eq!(position_of_id(&m.games, "none"), None);
    assert_eq!(m.game_by_id("puzzle").unwrap().title, "puzzle title");
    assert!(m.game_by_index(3).is_none());
    assert_eq!(m.game_by_index(2).unwrap().env, vec![("A".to_string(), "1".to_string())]);
    let all: Vec<String> = all_game_references(&m).into_iter().map(|r| r.id).collect();
    assert_eq!(all, strings(&["pirate", "puzzle", "pirate"]));
    let mut listed = manifest();
    listed.all_games = refs(&["puzzle"]);
    assert_eq!(all_game_references(&listed).len(), 1);
    assert_eq!(resolve_game_section(&m.games, &m.top_games), vec![1, 0]);
    let copy = copy_game_entry(&m.games[2]);
    assert_eq!(copy.env, m.games[2].env);
    assert_eq!(env_get(&copy.env, "A").as_deref(), Some("1"));
    assert_eq!(env_get(&copy.env, "B"), None);
}

#[test]
fn manifest_paths() {
    let candidates = candidate_manifest_paths(Some("/etc/games.json"), Some("/opt/bin"), Some("/home/u/"));
    assert_eq!(
        candidates,
        strings(&["/etc/games.json", DEFAULT_MANIFEST_PATH, "/opt/bin/games.json", "/home/u/games.json"])
    );
    assert_eq!(candidate_manifest_paths(None, None, None), strings(&[DEFAULT_MANIFEST_PATH]));
    assert_eq!(choose_manifest_path(&candidates, &vec![false, false, true, true]), Ok(2));
    assert_eq!(
        choose_manifest_path(&strings(&["/a", "/b"]), &vec![false, false]),
        Err("no games manifest found; checked: /a, /b".to_string())
    );
}

#[test]
fn launch_arguments() {
    assert_eq!(
        sanitize_game_args(&strings(&["--audio-driver", "DUMMY", "-x", "--audio-driver", "alsa", "--audio-driver"])),
        strings(&["-x", "--audio-driver", "alsa", "--audio-driver"])
    );
    assert!(sanitize_game_args(&Vec::new()).is_empty());
}

#[test]
fn game_executables_and_env() {
    let g = game("pirate", &[("OPENCONSOLE_GAME_BIN", "pirate.arm64"), ("SDL_AUDIODRIVER", "alsa")], &["DISPLAY"]);
    assert_eq!(expected_game_executable(&g).as_deref(), Some("/data/games/project/pirate.arm64"));
    assert_eq!(expected_game_executable(&game("x", &[("OPENCONSOLE_GAME_BIN", "a/b")], &[])), None);
    assert_eq!(expected_game_executable(&game("x", &[("OPENCONSOLE_GAME_BIN", "")], &[])), None);
    assert_eq!(expected_game_executable(&game("x", &[], &[])), None);
    assert_eq!(display_env_override(&g, "DISPLAY", Some(":0")), "<unset>");
    assert_eq!(display_env_override(&g, "SDL_AUDIODRIVER", Some("pulse")), "alsa");
    assert_eq!(display_env_override(&g, "HOME", Some("/root")), "/root");
    assert_eq!(display_env_override(&g, "HOME", None), "<unset>");
}

#[test]
fn requested_games() {
    assert_eq!(resolve_requested_game(Ok(manifest()), 1).unwrap().id, "puzzle");
    assert_eq!(resolve_requested_game(Ok(manifest()), 7).unwrap_err(), "game index 7 not found in manifest");
    assert_eq!(resolve_requested_game(Err("no manifest".to_string()), 0).unwrap_err(), "no manifest");
}

#[test]
fn supervisor_requests() {
    assert!(matches!(decide_request(&SupervisorRequest::Launch { game_index: 4 }, false), SupervisorStep::ResolveLaunch(4)));
    assert!(matches!(decide_request(&SupervisorRequest::Reboot, true), SupervisorStep::Reboot));
    match decide_request(&SupervisorRequest::CaptureControllerInput { timeout_ms: 10, device_id: None }, false) {
        SupervisorStep::Reply { start_mapper, stop_mapper, response } => {
            assert!(!start_mapper && !stop_mapper && !response.ok);
            assert_eq!(response.message, "controller capture is handled by the UI runtime");
        }
        other => panic!("unexpected {other:?}"),
    }
    match decide_request(&SupervisorRequest::SetRuntimeMapperEnabled { enabled: true }, true) {
        SupervisorStep::Reply { start_mapper, stop_mapper, response } => {
            assert!(!start_mapper && !stop_mapper && response.ok);
            assert_eq!(response.message, "runtime mapper enabled");
        }
        other => panic!("unexpected {other:?}"),
    }
    match decide_request(&SupervisorRequest::SetRuntimeMapperEnabled { enabled: false }, true) {
        SupervisorStep::Reply { start_mapper, stop_mapper, response } => {
            assert!(!start_mapper && stop_mapper);
            assert_eq!(response.message, "runtime mapper disabled");
        }
        other => panic!("unexpected {other:?}"),
    }
    let (g, r) = launch_outcome(Ok(game("pirate", &[], &[])));
    assert_eq!(g.unwrap().id, "pirate");
    assert!(r.ok && r.message == "launch accepted");
    let (g, r) = launch_outcome(Err("bad index".to_string()));
    assert!(g.is_none() && !r.ok && r.message == "bad index");
    let (exit, r) = reboot_outcome(Ok(()));
    assert!(exit && r.ok && r.message == "reboot accepted");
    let (exit, r) = reboot_outcome(Err("denied".to_string()));
    assert!(!exit && !r.ok && r.message == "failed to request reboot: denied");
}

#[test]
fn game_monitor_lifecycle() {
    let mut state = GameMonitorState { wrapper_exited: false, waiting_logged: false, hotkey_triggered: false };
    let a = game_monitor_step(&mut state, WrapperPoll::Running, &vec![10], false);
    assert!(!a.stop && !a.log_wrapper_exit && !a.kill_wrapper && a.signal_pids.is_empty());
    let a = game_monitor_step(&mut state, WrapperPoll::Running, &vec![10, 11], true);
    assert!(a.kill_wrapper && !a.stop);
    assert_eq!(a.signal_pids, vec![10, 11]);
    assert!(state.hotkey_triggered);
    let a = game_monitor_step(&mut state, WrapperPoll::Exited, &vec![10], false);
    assert!(a.log_wrapper_exit && a.log_waiting && !a.stop);
    let a = game_monitor_step(&mut state, WrapperPoll::Failed, &vec![10], false);
    assert!(!a.log_wrapper_exit && !a.log_waiting && !a.stop);
    let a = game_monitor_step(&mut state, WrapperPoll::Running, &Vec::new(), false);
    assert!(a.stop);
    let mut fresh = GameMonitorState { wrapper_exited: false, waiting_logged: false, hotkey_triggered: false };
    assert!(game_monitor_step(&mut fresh, WrapperPoll::Failed, &vec![1], true).stop);
}

#[test]
fn proc_entries() {
    assert_eq!(parse_proc_pid("123"), Some(123));
    assert_eq!(parse_proc_pid("4294967295"), Some(u32::MAX));
    assert_eq!(parse_proc_pid("4294967296"), None);
    assert_eq!(parse_proc_pid(""), None);
    assert_eq!(parse_proc_pid("+5"), None);
    assert_eq!(parse_proc_pid("self"), None);
    assert_eq!(path_components_exec("/data//games/./x.arm64/"), strings(&["/", "data", "games", "x.arm64"]));
    assert_eq!(path_components_exec("./a/../b"), strings(&[".", "a", "..", "b"]));
    assert_eq!(path_extension_exec("/a/b.tar.ARM64").as_deref(), Some("ARM64"));
    assert_eq!(path_extension_exec("/a/.hidden"), None);
    assert_eq!(path_extension_exec("/a/b"), None);
    assert!(game_executable("/data/games/project/pirate/pirate.arm64"));
    assert!(game_executable("/data/games/project/x.ARM64"));
    assert!(!game_executable("/data/games/projects/x.arm64"));
    assert!(!game_executable("/data/games/project/x.x86"));
    assert_eq!(game_process_pid("42", "/data/games/project/x.arm64"), Some(42));
    assert_eq!(game_process_pid("42", "/usr/bin/x.arm64"), None);
    assert_eq!(executable_process_pid("7", "/data/games/project//p.arm64", "/data/games/project/p.arm64"), Some(7));
    assert_eq!(executable_process_pid("7", "/data/games/project/q.arm64", "/data/games/project/p.arm64"), None);
}

#[test]
fn built_in_catalog() {
    let m = openconsole::catalog::placeholder_manifest();
    let ids: Vec<&str> = m.games.iter().map(|g| g.id.as_str()).collect();
    assert_eq!(ids, vec!["pirate-puzzle", "pizza-delivery", "soko-bloom", "hogbound"]);
    assert_eq!(m.games[3].image, "assets/games/1/game.jpg");
    assert_eq!(m.games[1].screenshots[3], "assets/games/3/screenshots/4.jpg");
    assert_eq!(m.games[0].args.len(), 8);
    assert!(!m.games[2].showtitle);
    assert_eq!(expected_game_executable(&m.games[1]).as_deref(), Some("/data/games/project/pizzadelivery.arm64"));
    assert_eq!(resolve_game_section(&m.games, &m.top_games), vec![0, 2, 3]);
    assert_eq!(resolve_game_section(&m.games, &m.new_games).len(), 8);
    assert_eq!(all_game_references(&m).len(), 7);
    let g = &m.games[0];
    assert_eq!(display_env_override(g, "DISPLAY", Some(":0")), "<unset>");
    assert_eq!(display_env_override(g, "WAYLAND_DISPLAY", None), "wayland-0");
}

fn change(c: &EnvChange) -> (String, Option<String>) {
    match c {
        EnvChange::Assign { key, value } => (key.clone(), Some(value.clone())),
        EnvChange::Remove { key } => (key.clone(), None),
    }
}

#[test]
fn launch_plan_directory_environment_and_args() {
    let mut g = game("pirate", &[("A", "1")], &["DISPLAY"]);
    g.command = "/data/games/pirate/run.sh".to_string();
    g.args = strings(&["--audio-driver", "Dummy", "--fast"]);
    let p = launch_plan(&g, Some("hw:1"));
    assert_eq!(p.working_dir.as_deref(), Some("/data/games/pirate"));
    assert_eq!(p.cwd_text, "/data/games/pirate");
    let changes: Vec<(String, Option<String>)> = p.env.iter().map(change).collect();
    assert_eq!(
        changes,
        vec![
            ("A".to_string(), Some("1".to_string())),
            ("DISPLAY".to_string(), None),
            ("OPENCONSOLE_AUDIO_DEVICE".to_string(), Some("hw:1".to_string())),
            ("SDL_AUDIODRIVER".to_string(), Some("alsa".to_string())),
            ("AUDIODEV".to_string(), Some("default".to_string())),
        ]
    );
    assert_eq!(p.args, strings(&["--fast"]));

    g.cwd = Some("/tmp/play".to_string());
    let q = launch_plan(&g, None);
    assert_eq!(q.working_dir.as_deref(), Some("/tmp/play"));
    assert_eq!(q.env.len(), 2);

    g.cwd = None;
    g.command = "run".to_string();
    let r = launch_plan(&g, None);
    assert_eq!(r.working_dir.as_deref(), Some(""));
    g.command = "/".to_string();
    let s = launch_plan(&g, None);
    assert_eq!(s.working_dir, None);
    assert_eq!(s.cwd_text, ".");
}

#[test]
fn first_entry_of_a_variable_counts() {
    let env = vec![("K".to_string(), "first".to_string()), ("K".to_string(), "second".to_string())];
    assert_eq!(env_get(&env, "K").as_deref(), Some("first"));
    assert_eq!(env_get(&env, "L"), None);
}
