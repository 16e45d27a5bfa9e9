use dinit_dash::details::parse_status;
use dinit_dash::dinit::{DinitManager, LogRead, ServiceScope};
use dinit_dash::environment::Environment;
use dinit_dash::paths::{byte_path, enable_links, text_path};
use std::path::Path;

fn user_environment() -> Environment {
    Environment {
        home: Some(b"/home/u".to_vec()),
        xdg_config_home: Some(b"/cfg".to_vec()),
        xdg_data_home: None,
        xdg_state_home: Some(b"/home/u/state".to_vec()),
        xdg_cache_home: None,
        xdg_runtime_dir: Some(b"/run/user/1000".to_vec()),
        dinitctl: None,
    }
}

fn strings(v: &[&str]) -> Vec<String> {
    v.iter().map(|s| s.to_string()).collect()
}

#[test]
fn paths_are_joined_as_std_joins_them() {
    for base in ["", "/", "/a", "/a/", "a//", "\u{e9}"] {
        for name in ["", "b", "/b", "b/c", "../x", "/"] {
            let expected = Path::new(base).join(name);
            assert_eq!(text_path(base, name), expected.to_str().unwrap());
            assert_eq!(
                byte_path(&base.as_bytes().to_vec(), name.as_bytes()),
                expected.to_str().unwrap().as_bytes().to_vec()
            );
        }
    }
}

#[test]
fn user_links_lie_below_the_configuration() {
    let mut env = user_environment();
    let shown = |env: &Environment| -> Vec<String> {
        enable_links(ServiceScope::User, "a", env)
            .into_iter()
            .map(|b| String::from_utf8(b).unwrap())
            .collect()
    };
    assert_eq!(
        shown(&env),
        [
            "/cfg/dinit.d/boot/waits-for.d/a",
            "/cfg/dinit.d/boot.d/a",
            "/home/u/.config/dinit.d/boot/waits-for.d/a",
            "/home/u/.config/dinit.d/boot.d/a",
        ]
    );
    env.xdg_config_home = Some(Vec::new());
    env.home = None;
    assert_eq!(shown(&env), ["dinit.d/boot/waits-for.d/a", "dinit.d/boot.d/a"]);
    env.xdg_config_home = None;
    assert!(shown(&env).is_empty());
}

#[test]
fn a_service_is_enabled_by_a_link() {
    let mut env = user_environment();
    let m = DinitManager::new(ServiceScope::User).unwrap();
    let links = vec![b"/home/u/.config/dinit.d/boot.d/a".to_vec()];
    assert_eq!(m.is_enabled("a", &env, &links, &vec![]), "enabled");
    assert_eq!(m.is_enabled("b", &env, &links, &vec![]), "disabled");
    assert_eq!(m.is_enabled("a", &env, &vec![], &vec![]), "disabled");
    // A directory need not be text.
    env.xdg_config_home = Some(b"/c\xff".to_vec());
    let odd = vec![b"/c\xff/dinit.d/boot/waits-for.d/a".to_vec()];
    assert_eq!(m.is_enabled("a", &env, &odd, &vec![]), "enabled");
}

#[test]
fn a_described_service_without_a_link_is_static() {
    let env = user_environment();
    let system = DinitManager::new(ServiceScope::System).unwrap();
    let files = strings(&["/usr/lib/dinit.d/a"]);
    assert_eq!(system.is_enabled("a", &env, &vec![], &files), "static");
    assert_eq!(system.is_enabled("b", &env, &vec![], &files), "disabled");
    // A link counts for more than the file.
    let links = vec![b"/etc/dinit.d/boot/waits-for.d/a".to_vec()];
    assert_eq!(system.is_enabled("a", &env, &links, &files), "enabled");
    // Each scope has directories of its own.
    let user = DinitManager::new(ServiceScope::User).unwrap();
    assert_eq!(user.is_enabled("a", &env, &vec![], &files), "disabled");
    let files = strings(&["/home/u/.config/dinit.d/a"]);
    assert_eq!(user.is_enabled("a", &env, &vec![], &files), "static");
}

#[test]
fn description_files_are_looked_for_in_order() {
    let mut env = user_environment();
    let user = DinitManager::new(ServiceScope::User).unwrap();
    assert_eq!(
        user.service_files_to_check("a", &env),
        strings(&[
            "/cfg/dinit.d/a",
            "/home/u/.config/dinit.d/a",
            "/etc/dinit.d/user/a",
            "/usr/local/lib/dinit.d/user/a",
            "/usr/lib/dinit.d/user/a",
        ])
    );
    let files = strings(&["/usr/lib/dinit.d/user/a", "/etc/dinit.d/user/a"]);
    assert_eq!(
        user.find_service_file_path("a", &env, &files),
        Some("/etc/dinit.d/user/a".to_string())
    );
    assert_eq!(user.find_service_file_path("b", &env, &files), None);

    env.xdg_config_home = Some(Vec::new());
    env.home = Some(b"\xff".to_vec());
    assert_eq!(user.service_files_to_check("a", &env).len(), 3);

    let system = DinitManager::new(ServiceScope::System).unwrap();
    assert_eq!(
        system.service_files_to_check("a", &env),
        strings(&[
            "/etc/dinit.d/a",
            "/usr/local/lib/dinit.d/a",
            "/usr/lib/dinit.d/a",
            "/run/dinit.d/a",
        ])
    );
}

#[test]
fn status_reports_give_file_and_process() {
    let report = "Service: sshd\n    File: /etc/dinit.d/sshd \n    State: STARTED\n    Process ID: 812\n";
    assert_eq!(parse_status(report), ("/etc/dinit.d/sshd".to_string(), Some(812)));
    assert_eq!(parse_status("pid: 7 (main)\n"), (String::new(), Some(7)));
    assert_eq!(parse_status("pid: 7\npid: none\n"), (String::new(), None));
    assert_eq!(parse_status("pid:4294967296\nFile: a\nFile: b"), ("b".to_string(), None));
    assert_eq!(parse_status(""), (String::new(), None));
    assert_eq!(parse_status("xpid: 7"), (String::new(), None));
}

#[test]
fn details_fall_back_to_the_files() {
    let env = user_environment();
    let m = DinitManager::new(ServiceScope::System).unwrap();
    let files = strings(&["/usr/lib/dinit.d/a"]);
    assert_eq!(
        m.service_details_unprivileged("a", Err("denied".to_string()), &env, &files),
        Ok(("/usr/lib/dinit.d/a".to_string(), None))
    );
    assert_eq!(
        m.service_details_unprivileged("a", Ok("pid: 3".to_string()), &env, &files),
        Ok(("/usr/lib/dinit.d/a".to_string(), Some(3)))
    );
    assert_eq!(
        m.service_details_unprivileged("a", Ok("File: /x\npid: 3".to_string()), &env, &files),
        Ok(("/x".to_string(), Some(3)))
    );
    assert_eq!(
        m.service_details_unprivileged("a", Err(String::new()), &env, &vec![]),
        Ok((String::new(), None))
    );
}

#[test]
fn log_files_are_read_from_the_description() {
    let env = user_environment();
    let m = DinitManager::new(ServiceScope::User).unwrap();
    let path = |d: &str| m.read_logfile_path(Some(d), &env);
    assert_eq!(path("type = process\nlogfile = /var/log/a\n"), Some("/var/log/a".to_string()));
    assert_eq!(path("  logfile=\"/a b\"  "), Some("/a b".to_string()));
    assert_eq!(path("logfile /x"), Some("/x".to_string()));
    assert_eq!(path("logfile\t\"/x\""), Some("/x".to_string()));
    assert_eq!(path("logfile"), None);
    assert_eq!(path("logfile/x"), None);
    assert_eq!(path("logfiles = /x"), None);
    assert_eq!(path("logfile =\nlogfile = \"\"\nlogfile = /second"), Some("/second".to_string()));
    assert_eq!(path("# logfile = /x\ncommand = y"), None);
    assert_eq!(
        path("type = process\nlogfile-permissions = 600\nlogfile = /var/log/web.log\n"),
        Some("/var/log/web.log".to_string())
    );
    assert_eq!(path("logfile-permissions = 600\nlogfile-uid = 0\n"), None);
    assert_eq!(path(""), None);
    assert_eq!(m.read_logfile_path(None, &env), None);
}

#[test]
fn variables_in_log_paths_are_replaced() {
    let mut env = user_environment();
    let m = DinitManager::new(ServiceScope::User).unwrap();
    let path = |d: &str, env: &Environment| m.read_logfile_path(Some(d), env).unwrap();
    assert_eq!(path("logfile = $HOME/log", &env), "/home/u/log");
    assert_eq!(path("logfile = ${HOME}/$HOME", &env), "/home/u//home/u");
    assert_eq!(path("logfile = $XDG_RUNTIME_DIR/a", &env), "/run/user/1000/a");
    assert_eq!(path("logfile = ${XDG_STATE_HOME}/a", &env), "/home/u/state/a");
    assert_eq!(path("logfile = $XDG_CACHE_HOME/a", &env), "$XDG_CACHE_HOME/a");
    assert_eq!(path("logfile = /plain", &env), "/plain");
    env.home = None;
    assert_eq!(path("logfile = $HOME/log", &env), "$HOME/log");
    env.home = Some(b"\xff".to_vec());
    assert_eq!(path("logfile = ${HOME}/log", &env), "${HOME}/log");
}

#[test]
fn logs_are_tails_or_messages() {
    let m = DinitManager::new(ServiceScope::User).unwrap();
    let read = |data: Result<&str, &str>| {
        Some(LogRead {
            path: "/l".to_string(),
            data: data.map(|s| s.to_string()).map_err(|e| e.to_string()),
        })
    };
    assert_eq!(m.get_service_logs_unprivileged(read(Ok("a\nb\nc\n")), 2), Ok("b\nc".to_string()));
    assert_eq!(m.get_service_logs_unprivileged(read(Ok("a\nb")), 100), Ok("a\nb".to_string()));
    assert_eq!(
        m.get_service_logs_unprivileged(read(Err("denied")), 2),
        Err("logfile /l: denied".to_string())
    );
    assert_eq!(
        m.get_service_logs_unprivileged(None, 2),
        Err("This service has neither a log buffer (log-type = buffer) nor a logfile setting."
            .to_string())
    );
}
