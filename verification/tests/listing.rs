use dinit_dash::dinit::{DinitManager, ServiceScope};
use dinit_dash::environment::Environment;
use dinit_dash::listing::{classify_states, parse_list, parse_list_line};

fn no_environment() -> Environment {
    Environment {
        home: None,
        xdg_config_home: None,
        xdg_data_home: None,
        xdg_state_home: None,
        xdg_cache_home: None,
        xdg_runtime_dir: None,
        dinitctl: None,
    }
}

const LIST: &str = "[{+}     ] boot\n\
                    \n\
                    [ {s}    ] keymap (skipped)\r\n\
                    garbage\n\
                    [     {-}] xdm (exit status: 1)\n\
                    [     {X}] broken\n\
                    [{ <<   }] starting-service\n\
                    [{  >>  }] stopping-service\n\
                    [[+]     ] xdg-user-dirs (pid: 812)\n\
                    [{+}     ]  nameless";

#[test]
fn test_parse_list_line() {
    let line = "[{+}     ] boot";
    let (marker, rest) = parse_list_line(line).unwrap();
    assert_eq!(marker, "[{+}     ");
    assert_eq!(rest, "boot");
}

#[test]
fn test_parse_list_line_marked_active() {
    // Marked-active services use ] for both brackets: the parser must
    // NOT mistake the inner ] for the end of the marker.
    let line = "[[+]     ] xdg-user-dirs";
    let (marker, rest) = parse_list_line(line).unwrap();
    assert_eq!(marker, "[[+]     ");
    assert_eq!(rest, "xdg-user-dirs");
}

#[test]
fn test_parse_list_line_with_suffix() {
    let line = "[     {-}] xdm (exit status: 1)";
    let (_marker, rest) = parse_list_line(line).unwrap();
    assert_eq!(rest, "xdm");
}

#[test]
fn test_parse_list_line_starting() {
    let line = "[{ <<   }] starting-service";
    let (marker, rest) = parse_list_line(line).unwrap();
    assert_eq!(marker, "[{ <<   }");
    assert_eq!(rest, "starting-service");
}

#[test]
fn test_parse_list_line_skipped() {
    let line = "[ {s}    ] keymap (skipped)";
    let (marker, rest) = parse_list_line(line).unwrap();
    assert_eq!(marker, "[ {s}    ");
    assert_eq!(rest, "keymap");
}

#[test]
fn test_parse_list_line_short_rejected() {
    // Malformed / too-short lines (e.g. a stray "[" line) must be skipped.
    assert!(parse_list_line("[foo").is_none());
    assert!(parse_list_line("[{+} ]").is_none());
    assert!(parse_list_line("").is_none());
}

#[test]
fn test_classify_states() {
    // Markers are 9 chars incl. the leading '['.
    let (active, sub) = classify_states("[{+}     ");
    assert_eq!(active, "active");
    assert_eq!(sub, "running");

    let (active, sub) = classify_states("[[+]     ");
    assert_eq!(active, "active");
    assert_eq!(sub, "running");

    let (active, sub) = classify_states("[     {-}");
    assert_eq!(active, "inactive");
    assert_eq!(sub, "dead");

    let (active, sub) = classify_states("[     {X}");
    assert_eq!(active, "failed");
    assert_eq!(sub, "failed");

    let (active, sub) = classify_states("[{ <<   }");
    assert_eq!(active, "activating");
    assert_eq!(sub, "start");

    let (active, sub) = classify_states("[{  >>  }");
    assert_eq!(active, "deactivating");
    assert_eq!(sub, "stop");

    let (active, sub) = classify_states("[ {s}    ");
    assert_eq!(active, "inactive");
    assert_eq!(sub, "dead");
}

#[test]
fn transitions_count_before_failure_and_running() {
    assert_eq!(classify_states("[[+]<<{X}"), ("activating", "start"));
    assert_eq!(classify_states("[[+]>>{X}"), ("deactivating", "stop"));
    assert_eq!(classify_states("[[+]  {X}"), ("failed", "failed"));
    assert_eq!(classify_states(""), ("inactive", "dead"));
    assert_eq!(classify_states("[ +"), ("active", "running"));
}

#[test]
fn line_feed_at_the_end_is_no_part_of_the_name() {
    assert_eq!(parse_list_line("[{+}     ] boot\n"), Some(("[{+}     ", "boot")));
    assert_eq!(parse_list_line("[{+}     ] "), Some(("[{+}     ", "")));
    assert_eq!(parse_list_line("[{+}     ]\n"), None);
    assert_eq!(parse_list_line("[{+}     ]boot"), None);
    assert_eq!(parse_list_line(" {+}     ] boot"), None);
}

#[test]
fn marker_is_measured_in_bytes() {
    // The accented letter takes two bytes.
    assert_eq!(parse_list_line("[\u{e9}+}    ] boot"), Some(("[\u{e9}+}    ", "boot")));
    assert_eq!(parse_list_line("[\u{e9}+}     ] boot"), None);
    assert_eq!(parse_list_line("[{+}     ] b\u{e9}\u{a0}x"), Some(("[{+}     ", "b\u{e9}")));
}

#[test]
fn lines_of_another_form_are_passed_over() {
    let names: Vec<&str> = parse_list(LIST).iter().map(|e| e.1).collect();
    assert_eq!(
        names,
        [
            "boot",
            "keymap",
            "xdm",
            "broken",
            "starting-service",
            "stopping-service",
            "xdg-user-dirs"
        ]
    );
}

#[test]
fn services_are_listed_in_order_and_without_details() {
    let manager = DinitManager::new(ServiceScope::System).unwrap();
    let env = no_environment();
    let existing = vec![
        b"/usr/lib/dinit.d/boot.d/xdm".to_vec(),
        b"/etc/dinit.d/boot/waits-for.d/broken".to_vec(),
    ];
    let files = vec!["/etc/dinit.d/keymap".to_string(), "/run/dinit.d/xdm".to_string()];
    let services = manager.list_services(Ok(LIST.to_string()), &env, &existing, &files).unwrap();
    let shown: Vec<(&str, &str, &str, &str)> = services
        .iter()
        .map(|s| {
            (
                s.name.as_str(),
                s.active_state.as_str(),
                s.sub_state.as_str(),
                s.unit_file_state.as_str(),
            )
        })
        .collect();
    assert_eq!(
        shown,
        [
            ("boot", "active", "running", "disabled"),
            ("keymap", "inactive", "dead", "static"),
            ("xdm", "inactive", "dead", "enabled"),
            ("broken", "failed", "failed", "enabled"),
            ("starting-service", "activating", "start", "disabled"),
            ("stopping-service", "deactivating", "stop", "disabled"),
            ("xdg-user-dirs", "active", "running", "disabled"),
        ]
    );
    for s in &services {
        assert_eq!(s.load_state, "loaded");
        assert_eq!(s.unit_path, "");
        assert_eq!(s.pid, None);
    }
}

#[test]
fn failed_listing_is_an_error() {
    let manager = DinitManager::new(ServiceScope::User).unwrap();
    let env = no_environment();
    let r = manager.list_services(Err("dinitctl failed: no".to_string()), &env, &vec![], &vec![]);
    assert_eq!(r.unwrap_err(), "dinitctl failed: no");
}

#[test]
fn links_to_check_are_those_of_the_listed_services() {
    let manager = DinitManager::new(ServiceScope::System).unwrap();
    let env = no_environment();
    let links = manager.links_to_check("[{+}     ] a\nx\n[{+}     ] b\n", &env);
    assert_eq!(links.len(), 16);
    assert_eq!(links[0], b"/etc/dinit.d/boot/waits-for.d/a".to_vec());
    assert_eq!(links[1], b"/etc/dinit.d/boot.d/a".to_vec());
    assert_eq!(links[2], b"/run/dinit.d/boot/waits-for.d/a".to_vec());
    assert_eq!(links[15], b"/usr/lib/dinit.d/boot.d/b".to_vec());
}

#[test]
fn files_to_check_are_those_of_the_listed_services() {
    let manager = DinitManager::new(ServiceScope::System).unwrap();
    let env = no_environment();
    let paths = manager.listed_files_to_check("[{+}     ] a\nx\n[{+}     ] b\n", &env);
    assert_eq!(
        paths,
        [
            "/etc/dinit.d/a",
            "/usr/local/lib/dinit.d/a",
            "/usr/lib/dinit.d/a",
            "/run/dinit.d/a",
            "/etc/dinit.d/b",
            "/usr/local/lib/dinit.d/b",
            "/usr/lib/dinit.d/b",
            "/run/dinit.d/b",
        ]
    );
    assert!(manager.listed_files_to_check("x\n", &env).is_empty());
}

#[test]
fn checked_paths_tell_the_state() {
    let manager = DinitManager::new(ServiceScope::System).unwrap();
    let env = no_environment();
    let list = "[{+}     ] a\n[{+}     ] b\n[{+}     ] c\n";
    let disk = ["/usr/lib/dinit.d/boot.d/a", "/usr/lib/dinit.d/a", "/run/dinit.d/b"];
    let links: Vec<Vec<u8>> = manager
        .links_to_check(list, &env)
        .into_iter()
        .filter(|path| disk.iter().any(|d| d.as_bytes() == path.as_slice()))
        .collect();
    let files: Vec<String> = manager
        .listed_files_to_check(list, &env)
        .into_iter()
        .filter(|path| disk.contains(&path.as_str()))
        .collect();
    let services = manager.list_services(Ok(list.to_string()), &env, &links, &files).unwrap();
    let states: Vec<&str> = services.iter().map(|s| s.unit_file_state.as_str()).collect();
    assert_eq!(states, ["enabled", "static", "disabled"]);
}
