use dinit_dash::dinit::{DinitService, ServiceAction, ServiceScope};
use dinit_dash::message::{ContextPage, Message};
use dinit_dash::update::{
    logs_loaded, service_refreshed, services_loaded, AppModel, Page, Task, LOG_LINES,
    REFRESH_INTERVAL,
};

fn model() -> AppModel {
    AppModel {
        current_scope: ServiceScope::System,
        system_services: Vec::new(),
        user_services: Vec::new(),
        is_loading: false,
        load_error: None,
        selected_service: None,
        current_page: Page::SystemServices,
        service_logs: String::new(),
        action_in_progress: false,
        last_refresh: 0,
        context_page: ContextPage(0),
        show_context: false,
        search_filter: String::new(),
    }
}

fn service(name: &str, active: &str) -> DinitService {
    DinitService {
        name: name.to_string(),
        load_state: "loaded".to_string(),
        active_state: active.to_string(),
        sub_state: "x".to_string(),
        unit_path: String::new(),
        unit_file_state: "disabled".to_string(),
        pid: None,
    }
}

fn known(name: &str, active: &str, path: &str, pid: u32) -> DinitService {
    let mut s = service(name, active);
    s.unit_path = path.to_string();
    s.pid = Some(pid);
    s
}

fn shown(list: &[DinitService]) -> Vec<(String, String, String, Option<u32>)> {
    list.iter()
        .map(|s| (s.name.clone(), s.active_state.clone(), s.unit_path.clone(), s.pid))
        .collect()
}

fn row(name: &str, active: &str, path: &str, pid: Option<u32>) -> (String, String, String, Option<u32>) {
    (name.to_string(), active.to_string(), path.to_string(), pid)
}

#[test]
fn entering_a_scope_lists_its_services_once() {
    let mut m = model();
    let task = m.update_message(Message::LoadServices(Some(ServiceScope::User)), 0);
    assert!(matches!(task, Task::LoadServices(ServiceScope::User)));
    assert!(m.is_loading);
    assert_eq!(m.current_scope, ServiceScope::User);

    let task = m.update_message(
        Message::ServicesLoaded(ServiceScope::User, Ok(vec![service("a", "active")])),
        0,
    );
    assert!(matches!(task, Task::Idle));
    assert!(!m.is_loading);

    let task = m.update_message(Message::LoadServices(None), 0);
    assert!(matches!(task, Task::Idle));
    assert!(!m.is_loading);
}

#[test]
fn switching_back_and_forth_is_silent() {
    let mut m = model();
    m.system_services = vec![service("s", "active")];
    m.user_services = vec![service("u", "active")];
    let away = m.update_message(Message::LoadServices(Some(ServiceScope::User)), 0);
    assert!(matches!(away, Task::Idle));
    assert_eq!(m.current_scope, ServiceScope::User);
    let back = m.update_message(Message::LoadServices(Some(ServiceScope::System)), 0);
    assert!(matches!(back, Task::Idle));
    assert_eq!(m.current_scope, ServiceScope::System);
    assert!(!m.is_loading);
}

#[test]
fn a_new_list_updates_only_what_changed() {
    let mut m = model();
    m.system_services = vec![
        known("gone", "active", "/g", 1),
        known("same", "active", "/s", 2),
        known("changed", "active", "/c", 3),
    ];
    m.update_message(
        Message::ServicesLoaded(
            ServiceScope::System,
            Ok(vec![
                service("changed", "failed"),
                service("new", "active"),
                service("same", "active"),
            ]),
        ),
        0,
    );
    assert_eq!(
        shown(&m.system_services),
        [
            row("same", "active", "/s", Some(2)),
            row("changed", "failed", "", None),
            row("new", "active", "", None),
        ]
    );
    assert!(m.user_services.is_empty());
}

#[test]
fn each_of_the_four_states_counts_as_a_change() {
    for field in 0..4 {
        let mut m = model();
        m.user_services = vec![known("a", "active", "/a", 1)];
        let mut s = service("a", "active");
        match field {
            0 => s.load_state = "y".to_string(),
            1 => s.active_state = "y".to_string(),
            2 => s.sub_state = "y".to_string(),
            _ => s.unit_file_state = "y".to_string(),
        }
        m.update_message(Message::ServicesLoaded(ServiceScope::User, Ok(vec![s])), 0);
        assert_eq!(m.user_services[0].pid, None);
        assert_eq!(m.user_services[0].unit_path, "");
    }
}

#[test]
fn the_same_list_twice_changes_nothing() {
    let mut m = model();
    m.user_services = vec![known("b", "active", "/b", 1), known("c", "dead", "/c", 2)];
    let news = || Ok(vec![service("a", "active"), service("b", "dead")]);
    m.update_message(Message::ServicesLoaded(ServiceScope::User, news()), 0);
    let once = shown(&m.user_services);
    m.update_message(Message::ServicesLoaded(ServiceScope::User, news()), 0);
    assert_eq!(shown(&m.user_services), once);
    assert_eq!(once, [row("b", "dead", "", None), row("a", "active", "", None)]);
}

#[test]
fn a_failed_listing_empties_the_list_and_is_shown() {
    let mut m = model();
    m.is_loading = true;
    m.system_services = vec![service("a", "active")];
    m.user_services = vec![service("u", "active")];
    m.selected_service = Some(service("a", "active"));
    m.update_message(
        Message::ServicesLoaded(ServiceScope::System, Err("no".to_string())),
        0,
    );
    assert!(m.system_services.is_empty());
    assert_eq!(m.user_services.len(), 1);
    assert_eq!(m.load_error, Some("no".to_string()));
    assert!(m.selected_service.is_none());
    assert!(!m.is_loading);
    m.update_message(Message::ServicesLoaded(ServiceScope::System, Ok(vec![])), 0);
    assert_eq!(m.load_error, None);
}

#[test]
fn the_selected_service_follows_the_list() {
    let mut m = model();
    m.selected_service = Some(known("a", "active", "/a", 1));
    m.update_message(
        Message::ServicesLoaded(ServiceScope::User, Ok(vec![service("b", "x"), service("a", "dead")])),
        0,
    );
    assert_eq!(m.selected_service.as_ref().unwrap().active_state, "dead");
    m.update_message(
        Message::ServicesLoaded(ServiceScope::User, Ok(vec![service("b", "x")])),
        0,
    );
    assert!(m.selected_service.is_none());
}

#[test]
fn selecting_and_going_back() {
    let mut m = model();
    m.current_scope = ServiceScope::User;
    let task = m.update_message(Message::SelectService(service("a", "active")), 0);
    assert!(matches!(task, Task::LoadLogs(ServiceScope::User, name) if name == "a"));
    assert_eq!(m.current_page, Page::Details);
    assert_eq!(m.selected_service.as_ref().unwrap().name, "a");
    assert!(matches!(m.update_message(Message::BackToList, 0), Task::Idle));
    assert_eq!(m.current_page, Page::UserServices);
    assert!(m.selected_service.is_none());
    m.current_scope = ServiceScope::System;
    m.update_message(Message::BackToList, 0);
    assert_eq!(m.current_page, Page::SystemServices);
}

#[test]
fn one_action_at_a_time() {
    let mut m = model();
    let asked: Vec<(Message, ServiceAction)> = vec![
        (Message::StartService("a".to_string()), ServiceAction::Start),
        (Message::StopService("a".to_string()), ServiceAction::Stop),
        (Message::RestartService("a".to_string()), ServiceAction::Restart),
        (Message::EnableService("a".to_string()), ServiceAction::Enable),
        (Message::DisableService("a".to_string()), ServiceAction::Disable),
    ];
    for (message, expected) in &asked {
        match m.update_message(message.clone(), 0) {
            Task::Control(ServiceScope::System, action, name) => {
                assert_eq!(action, *expected);
                assert_eq!(name, "a");
            }
            other => panic!("{:?}", other),
        }
        assert!(m.action_in_progress);
        for (again, _) in &asked {
            assert!(matches!(m.update_message(again.clone(), 0), Task::Idle));
        }
        let task = m.update_message(Message::ServiceActionComplete, 0);
        assert!(matches!(task, Task::LoadServices(ServiceScope::System)));
        assert!(!m.action_in_progress);
    }
}

#[test]
fn ticks_refresh_the_user_scope_at_the_interval() {
    let mut m = model();
    assert!(matches!(m.update_message(Message::Tick, 10 * REFRESH_INTERVAL), Task::Idle));
    assert_eq!(m.last_refresh, 0);

    m.current_scope = ServiceScope::User;
    assert!(matches!(m.update_message(Message::Tick, REFRESH_INTERVAL - 1), Task::Idle));
    let task = m.update_message(Message::Tick, REFRESH_INTERVAL);
    assert!(matches!(task, Task::Send(Message::LoadServices(None))));
    assert_eq!(m.last_refresh, 2_000_000_000);
    assert!(matches!(m.update_message(Message::Tick, 3_999_999_999), Task::Idle));
    assert!(matches!(m.update_message(Message::Tick, 5), Task::Idle));

    m.selected_service = Some(service("a", "active"));
    let task = m.update_message(Message::Tick, 4_000_000_000);
    assert!(matches!(task, Task::Send(Message::RefreshCurrentService)));
}

#[test]
fn the_selected_service_is_refreshed() {
    let mut m = model();
    assert!(matches!(m.update_message(Message::RefreshCurrentService, 0), Task::Idle));
    m.system_services = vec![service("a", "active"), service("b", "active")];
    m.selected_service = Some(service("b", "active"));
    let task = m.update_message(Message::RefreshCurrentService, 0);
    let base = match task {
        Task::RefreshService(ServiceScope::System, base) => base,
        other => panic!("{:?}", other),
    };
    let done = service_refreshed(Some((
        base,
        Ok(("/b".to_string(), Some(9))),
        Ok("log".to_string()),
    )));
    m.update_message(done, 0);
    assert_eq!(m.service_logs, "log");
    assert_eq!(m.selected_service.as_ref().unwrap().pid, Some(9));
    assert_eq!(
        shown(&m.system_services),
        [row("a", "active", "", None), row("b", "active", "/b", Some(9))]
    );

    m.update_message(service_refreshed(None), 0);
    assert_eq!(m.service_logs, "log");
    assert_eq!(m.selected_service.as_ref().unwrap().pid, Some(9));
}

#[test]
fn missing_details_are_shown_as_empty() {
    let done = service_refreshed(Some((
        known("a", "active", "/old", 4),
        Err("x".to_string()),
        Err("y".to_string()),
    )));
    match done {
        Message::CurrentServiceRefreshed(Some(s), logs) => {
            assert_eq!((s.unit_path.as_str(), s.pid, logs.as_str()), ("", None, ""));
            assert_eq!(s.active_state, "active");
        }
        other => panic!("{:?}", other),
    }
}

#[test]
fn results_become_messages() {
    match services_loaded(Some((ServiceScope::User, Err("e".to_string())))) {
        Message::ServicesLoaded(ServiceScope::User, Err(e)) => assert_eq!(e, "e"),
        other => panic!("{:?}", other),
    }
    match services_loaded(None) {
        Message::ServicesLoaded(ServiceScope::System, Ok(list)) => assert!(list.is_empty()),
        other => panic!("{:?}", other),
    }
    let text = |m: Message| match m {
        Message::LogsLoaded(t) => t,
        other => panic!("{:?}", other),
    };
    assert_eq!(text(logs_loaded(Some(Ok("l".to_string())))), "l");
    assert_eq!(text(logs_loaded(Some(Err("e".to_string())))), "");
    assert_eq!(text(logs_loaded(None)), "No logs available");
    assert_eq!(LOG_LINES, 100);
}

#[test]
fn the_drawer_is_toggled() {
    let mut m = model();
    m.update_message(Message::ToggleContextPage(ContextPage(1)), 0);
    assert_eq!((m.context_page, m.show_context), (ContextPage(1), true));
    m.update_message(Message::ToggleContextPage(ContextPage(1)), 0);
    assert_eq!((m.context_page, m.show_context), (ContextPage(1), false));
    m.update_message(Message::ToggleContextPage(ContextPage(1)), 0);
    assert!(m.show_context);
}

#[test]
fn texts_are_taken_over() {
    let mut m = model();
    m.update_message(Message::SearchFilterChanged("ssh".to_string()), 0);
    assert_eq!(m.search_filter, "ssh");
    m.update_message(Message::LogsLoaded("l".to_string()), 0);
    assert_eq!(m.service_logs, "l");
    let task = m.update_message(Message::LaunchUrl("https://x".to_string()), 0);
    assert!(matches!(task, Task::LaunchUrl(url) if url == "https://x"));
}

#[test]
fn the_title_names_the_page() {
    let m = model();
    let title = |task: Task| match task {
        Task::SetWindowTitle(t) => t,
        other => panic!("{:?}", other),
    };
    assert_eq!(
        title(m.update_title("Dinit Dash", Some("System"), true)),
        "Dinit Dash \u{2014} System"
    );
    assert_eq!(title(m.update_title("Dinit Dash", None, true)), "Dinit Dash");
    assert!(matches!(m.update_title("Dinit Dash", Some("System"), false), Task::Idle));
}

#[test]
fn a_name_never_comes_in_twice() {
    let mut m = model();
    m.user_services = vec![service("a", "x"), service("b", "x")];
    m.update_message(
        Message::ServicesLoaded(
            ServiceScope::User,
            Ok(vec![service("c", "x"), service("a", "y"), service("c", "z")]),
        ),
        0,
    );
    assert_eq!(
        shown(&m.user_services),
        [row("a", "y", "", None), row("c", "z", "", None)]
    );
}

#[test]
fn a_completed_action_refreshes_the_list() {
    let mut m = model();
    m.system_services = vec![known("a", "inactive", "/a", 1), known("b", "active", "/b", 2)];
    m.action_in_progress = true;
    let task = m.update_message(Message::ServiceActionComplete, 0);
    assert!(matches!(task, Task::LoadServices(ServiceScope::System)));
    assert!(!m.action_in_progress);
    assert!(!m.is_loading);
    m.update_message(
        Message::ServicesLoaded(
            ServiceScope::System,
            Ok(vec![service("a", "active"), service("b", "active")]),
        ),
        0,
    );
    assert_eq!(
        shown(&m.system_services),
        [row("a", "active", "", None), row("b", "active", "/b", Some(2))]
    );
}

#[test]
fn a_completed_action_shows_the_loader_only_for_an_empty_list() {
    let mut m = model();
    m.current_scope = ServiceScope::User;
    m.system_services = vec![service("s", "x")];
    m.action_in_progress = true;
    let task = m.update_message(Message::ServiceActionComplete, 0);
    assert!(matches!(task, Task::LoadServices(ServiceScope::User)));
    assert!(m.is_loading);
}

#[test]
fn what_a_tick_sets_off_stays_with_the_user() {
    let mut m = model();
    m.current_scope = ServiceScope::User;
    let sent = match m.update_message(Message::Tick, REFRESH_INTERVAL) {
        Task::Send(message) => message,
        other => panic!("{:?}", other),
    };
    let task = m.update_message(sent, REFRESH_INTERVAL);
    assert!(matches!(task, Task::LoadServices(ServiceScope::User)));

    m.selected_service = Some(service("a", "x"));
    let sent = match m.update_message(Message::Tick, 2 * REFRESH_INTERVAL) {
        Task::Send(message) => message,
        other => panic!("{:?}", other),
    };
    let task = m.update_message(sent, 2 * REFRESH_INTERVAL);
    assert!(matches!(task, Task::RefreshService(ServiceScope::User, s) if s.name == "a"));
}

#[test]
fn many_ticks_leave_the_system_scope_alone() {
    let mut m = model();
    m.system_services = vec![service("a", "x")];
    m.selected_service = Some(service("a", "x"));
    for k in 0..10u128 {
        assert!(matches!(m.update_message(Message::Tick, k * REFRESH_INTERVAL), Task::Idle));
    }
    assert_eq!(m.last_refresh, 0);
    assert_eq!(m.system_services.len(), 1);
}

#[test]
fn ticks_refresh_a_kept_list() {
    let mut m = model();
    m.current_scope = ServiceScope::User;
    m.user_services = vec![known("a", "active", "/a", 1), service("b", "active")];
    let task = m.update_message(Message::Tick, REFRESH_INTERVAL);
    assert!(matches!(task, Task::LoadServices(ServiceScope::User)));
    assert_eq!(m.last_refresh, REFRESH_INTERVAL);
    assert!(!m.is_loading);
    assert!(matches!(m.update_message(Message::Tick, 2 * REFRESH_INTERVAL - 1), Task::Idle));

    let list = vec![service("a", "active"), service("b", "failed")];
    m.update_message(Message::ServicesLoaded(ServiceScope::User, Ok(list)), 0);
    assert_eq!(
        shown(&m.user_services),
        [row("a", "active", "/a", Some(1)), row("b", "failed", "", None)]
    );

    // A selected service is refreshed in place of the list.
    m.selected_service = Some(service("b", "failed"));
    let task = m.update_message(Message::Tick, 2 * REFRESH_INTERVAL);
    assert!(matches!(task, Task::Send(Message::RefreshCurrentService)));
}
