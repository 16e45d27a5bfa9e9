use dinit_dash::control::{
    dinitctl_change, dinitctl_privileged, dinitctl_query, dinitctl_unprivileged, escalator_probes,
    find_privilege_escalator, Host, Invocation, ProcessOutput,
};
use dinit_dash::dinit::{DinitManager, ServiceAction, ServiceScope};
use dinit_dash::environment::{dinitctl_bin, Environment};

fn host(root: bool, escalator: Option<&str>) -> Host {
    Host {
        root,
        escalator: escalator.map(|t| t.to_string()),
        dinitctl: "dinitctl".to_string(),
    }
}

fn line(i: &Invocation) -> String {
    let mut words = vec![i.program.clone()];
    words.extend(i.args.iter().cloned());
    words.join(" ")
}

fn ended(success: bool, stdout: &[u8], stderr: &[u8]) -> Result<ProcessOutput, String> {
    Ok(ProcessOutput {
        success,
        stdout: stdout.to_vec(),
        stderr: stderr.to_vec(),
    })
}

#[test]
fn user_scope_and_root_run_dinitctl_as_it_is() {
    for (scope, root, flag) in [
        (ServiceScope::User, false, "-u"),
        (ServiceScope::User, true, "-u"),
        (ServiceScope::System, true, "-s"),
    ] {
        let h = host(root, Some("pkexec"));
        let m = DinitManager::new(scope).unwrap();
        assert_eq!(line(&m.list_invocation(&h)), format!("dinitctl {} list", flag));
        let i = m.start_service("sshd", &h).unwrap();
        assert_eq!(line(&i), format!("dinitctl {} start sshd", flag));
    }
}

#[test]
fn system_changes_run_under_the_escalator() {
    let m = DinitManager::new(ServiceScope::System).unwrap();
    let h = host(false, Some("pkexec"));
    assert_eq!(line(&m.start_service("a", &h).unwrap()), "pkexec dinitctl -s start a");
    assert_eq!(line(&m.stop_service("a", &h).unwrap()), "pkexec dinitctl -s stop a");
    assert_eq!(line(&m.restart_service("a", &h).unwrap()), "pkexec dinitctl -s restart a");
    assert_eq!(line(&m.enable_service("a", &h).unwrap()), "pkexec dinitctl -s enable a");
    assert_eq!(line(&m.disable_service("a", &h).unwrap()), "pkexec dinitctl -s disable a");
    assert_eq!(
        line(&m.control(ServiceAction::Disable, "a", &h).unwrap()),
        "pkexec dinitctl -s disable a"
    );
    let f = host(false, Some("flatpak-spawn"));
    assert_eq!(
        line(&m.stop_service("a", &f).unwrap()),
        "flatpak-spawn --host pkexec dinitctl -s stop a"
    );
}

#[test]
fn system_changes_are_refused_without_escalator() {
    let m = DinitManager::new(ServiceScope::System).unwrap();
    assert_eq!(
        m.start_service("a", &host(false, None)).unwrap_err(),
        "No privilege escalation tool found (doas, sudo, pkexec, flatpak-spawn)"
    );
    assert!(dinitctl_privileged(&vec!["x"], ServiceScope::User, &host(true, None)).is_err());
    assert!(dinitctl_change(&vec!["x"], ServiceScope::User, &host(false, None)).is_ok());
}

#[test]
fn system_queries_escalate_if_they_can() {
    let m = DinitManager::new(ServiceScope::System).unwrap();
    assert_eq!(line(&m.list_invocation(&host(false, Some("pkexec")))), "pkexec dinitctl -s list");
    assert_eq!(line(&m.list_invocation(&host(false, None))), "dinitctl -s list");
    let i = dinitctl_query(
        &vec!["list"],
        ServiceScope::System,
        &host(false, Some("flatpak-spawn")),
    );
    assert_eq!(line(&i), "flatpak-spawn --host pkexec dinitctl -s list");
    assert_eq!(
        i.conclude(Err("gone".to_string())),
        Err("Failed to execute flatpak-spawn: gone".to_string())
    );
}

#[test]
fn escalated_queries_run_as_changes_do() {
    for tool in ["pkexec", "flatpak-spawn"] {
        let h = host(false, Some(tool));
        let query = dinitctl_query(&vec!["list"], ServiceScope::System, &h);
        let change = dinitctl_change(&vec!["list"], ServiceScope::System, &h).unwrap();
        assert_eq!(line(&query), line(&change));
    }
}

#[test]
fn queries_never_ask_in_the_terminal() {
    let m = DinitManager::new(ServiceScope::System).unwrap();
    for tool in ["doas", "sudo"] {
        let h = host(false, Some(tool));
        assert_eq!(line(&m.list_invocation(&h)), "dinitctl -s list");
        assert_eq!(
            m.list_invocation(&h).conclude(Err("gone".to_string())),
            Err("Failed to execute dinitctl: gone".to_string())
        );
        // A change may ask there.
        assert_eq!(
            line(&m.stop_service("a", &h).unwrap()),
            format!("{} dinitctl -s stop a", tool)
        );
    }
}

#[test]
fn detail_reads_never_escalate() {
    let m = DinitManager::new(ServiceScope::System).unwrap();
    assert_eq!(line(&m.status_invocation("a", "/opt/dinitctl")), "/opt/dinitctl -s status a");
    let i = dinitctl_unprivileged(&vec!["catlog", "a"], ServiceScope::User, "d");
    assert_eq!(line(&i), "d -u catlog a");
}

#[test]
fn escalators_are_probed_in_order_of_preference() {
    let asked: Vec<(&str, &str)> = escalator_probes().iter().map(|p| (p.program, p.arg)).collect();
    assert_eq!(
        asked,
        [
            ("pkexec", "--version"),
            ("doas", "--version"),
            ("sudo", "--version"),
            ("flatpak-spawn", "--help")
        ]
    );
    let found = |ran: Vec<bool>| find_privilege_escalator(&ran);
    assert_eq!(found(vec![true, true]), Some("pkexec".to_string()));
    assert_eq!(found(vec![false, true]), Some("doas".to_string()));
    assert_eq!(found(vec![false, false, true, true]), Some("sudo".to_string()));
    assert_eq!(found(vec![false, false, false, true]), Some("flatpak-spawn".to_string()));
    assert_eq!(found(vec![false, false, false, false, true]), None);
    assert_eq!(found(vec![]), None);
}

#[test]
fn outcomes_are_the_output_or_a_message() {
    let user = DinitManager::new(ServiceScope::User).unwrap();
    let system = DinitManager::new(ServiceScope::System).unwrap();
    let h = host(false, Some("pkexec"));
    let direct = user.list_invocation(&h);
    let query = system.list_invocation(&h);
    let change = system.start_service("a", &h).unwrap();

    assert_eq!(direct.conclude(ended(true, b"ok\n", b"")), Ok("ok\n".to_string()));
    assert_eq!(change.conclude(ended(true, b"", b"warning")), Ok(String::new()));

    let gone = || Err("No such file".to_string());
    assert_eq!(
        direct.conclude(gone()),
        Err("Failed to execute dinitctl: No such file".to_string())
    );
    assert_eq!(query.conclude(gone()), Err("Failed to execute pkexec: No such file".to_string()));
    assert_eq!(change.conclude(gone()), Err("Failed to execute pkexec: No such file".to_string()));

    let bad = || ended(false, b"x", b"  not permitted \n");
    assert_eq!(direct.conclude(bad()), Err("dinitctl failed: not permitted".to_string()));
    assert_eq!(query.conclude(bad()), Err("dinitctl failed: not permitted".to_string()));
    assert_eq!(
        change.conclude(bad()),
        Err("dinitctl failed via pkexec: not permitted".to_string())
    );
    assert_eq!(
        change.report(false, "x".to_string(), " y "),
        Err("dinitctl failed via pkexec: y".to_string())
    );
}

#[test]
fn output_that_is_not_text_is_mended() {
    let user = DinitManager::new(ServiceScope::User).unwrap();
    let i = user.list_invocation(&host(false, None));
    assert_eq!(
        i.conclude(ended(true, b"a\xffb\xc3\xa9", b"")),
        Ok("a\u{fffd}b\u{e9}".to_string())
    );
    assert_eq!(
        i.conclude(ended(false, b"", b"\xf0")),
        Err("dinitctl failed: \u{fffd}".to_string())
    );
}

#[test]
fn dinitctl_command_can_be_configured() {
    let mut env = Environment {
        home: None,
        xdg_config_home: None,
        xdg_data_home: None,
        xdg_state_home: None,
        xdg_cache_home: None,
        xdg_runtime_dir: None,
        dinitctl: None,
    };
    assert_eq!(dinitctl_bin(&env), "dinitctl");
    env.dinitctl = Some(b"/opt/d\xc3\xa9".to_vec());
    assert_eq!(dinitctl_bin(&env), "/opt/d\u{e9}");
    env.dinitctl = Some(b"/opt/\xff".to_vec());
    assert_eq!(dinitctl_bin(&env), "dinitctl");
    env.dinitctl = Some(Vec::new());
    assert_eq!(dinitctl_bin(&env), "");
}
