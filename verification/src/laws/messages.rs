//! What each message does to the state, field by field, and which work it leaves.

use vstd::prelude::*;

use crate::dinit::{ServiceAction, ServiceScope, ServiceView};
use crate::message::{ContextPage, MessageView};
use crate::roster::{lookup, put, refreshed};
use crate::update::{
    listing_done, refresh_done, shown_log, step, text_or_empty, title_task, window_title,
    with_details, AppView, Page, TaskView, LOG_LINES, REFRESH_INTERVAL,
};

verus! {

/// Whether nothing is kept for a scope.
pub open spec fn nothing_kept(m: AppView, scope: ServiceScope) -> bool {
    &&& scope == ServiceScope::System ==> m.system_services.len() == 0
    &&& scope == ServiceScope::User ==> m.user_services.len() == 0
}

/// Entering a scope for which nothing is kept, be it the system's or the user's,
/// always lists its services: that scope becomes the current one, the loader is
/// shown, and nothing else changes.
pub proof fn law_entering_an_empty_scope_lists_it(m: AppView, scope: ServiceScope, now: u128)
    requires
        nothing_kept(m, scope),
    ensures
        step(m, MessageView::LoadServices(Some(scope)), now) == (
            AppView { current_scope: scope, is_loading: true, ..m },
            TaskView::LoadServices(scope),
        ),
{
}

/// Entering a scope for which services are kept shows those: nothing is listed,
/// and but for the scope nothing changes.
pub proof fn law_entering_a_kept_scope_lists_nothing(m: AppView, scope: ServiceScope, now: u128)
    requires
        !nothing_kept(m, scope),
    ensures
        step(m, MessageView::LoadServices(Some(scope)), now) == (
            AppView { current_scope: scope, ..m },
            TaskView::Idle,
        ),
{
}

/// Where no scope is named, the current one is entered.
pub proof fn law_no_scope_means_the_current_one(m: AppView, now: u128)
    ensures
        step(m, MessageView::LoadServices(None), now) == step(
            m,
            MessageView::LoadServices(Some(m.current_scope)),
            now,
        ),
{
}

/// A list that has come is merged into what is kept for its scope. The loader and
/// an earlier error are gone, the selected service is looked up again, and all
/// else stays, the other scope's services among it.
pub proof fn law_a_list_goes_to_its_scope(m: AppView, list: Seq<ServiceView>, now: u128)
    ensures
        step(m, MessageView::ServicesLoaded(ServiceScope::System, Ok(list)), now) == (
            AppView {
                system_services: refreshed(m.system_services, list),
                is_loading: false,
                load_error: None,
                selected_service: match m.selected_service {
                    Some(s) => lookup(refreshed(m.system_services, list), s.name),
                    None => None,
                },
                ..m
            },
            TaskView::Idle,
        ),
        step(m, MessageView::ServicesLoaded(ServiceScope::User, Ok(list)), now) == (
            AppView {
                user_services: refreshed(m.user_services, list),
                is_loading: false,
                load_error: None,
                selected_service: match m.selected_service {
                    Some(s) => lookup(refreshed(m.user_services, list), s.name),
                    None => None,
                },
                ..m
            },
            TaskView::Idle,
        ),
{
}

/// An error in place of a list does what an empty list does, but that it is
/// shown.
pub proof fn law_an_error_counts_as_an_empty_list(
    m: AppView,
    scope: ServiceScope,
    error: Seq<char>,
    now: u128,
)
    ensures
        ({
            let none = Seq::<ServiceView>::empty();
            let (with_none, _) = step(m, MessageView::ServicesLoaded(scope, Ok(none)), now);
            step(m, MessageView::ServicesLoaded(scope, Err(error)), now) == (
                AppView { load_error: Some(error), ..with_none },
                TaskView::Idle,
            )
        }),
{
}

/// Selecting a service shows its details, and asks for its log in the scope that
/// is current; nothing else changes.
pub proof fn law_selecting_shows_details(m: AppView, s: ServiceView, now: u128)
    ensures
        step(m, MessageView::SelectService(s), now) == (
            AppView { selected_service: Some(s), current_page: Page::Details, ..m },
            TaskView::LoadLogs(m.current_scope, s.name),
        ),
{
}

/// Going back selects nothing, and shows the page of the current scope: the
/// system's services on theirs, the user's on theirs.
pub proof fn law_going_back_shows_the_list(m: AppView, now: u128)
    ensures
        step(m, MessageView::BackToList, now).1 is Idle,
        m.current_scope == ServiceScope::System ==> step(m, MessageView::BackToList, now).0
            == (AppView { selected_service: None, current_page: Page::SystemServices, ..m }),
        m.current_scope == ServiceScope::User ==> step(m, MessageView::BackToList, now).0
            == (AppView { selected_service: None, current_page: Page::UserServices, ..m }),
{
}

/// A log that has come is shown, whatever it holds, and nothing else changes.
pub proof fn law_a_log_is_shown(m: AppView, logs: Seq<char>, now: u128)
    ensures
        step(m, MessageView::LogsLoaded(logs), now) == (
            AppView { service_logs: logs, ..m },
            TaskView::Idle,
        ),
{
}

/// Each request leaves the action of its own name to be done, to the service that
/// it names, in the current scope. Unless one is under way already, it is marked
/// as under way and nothing else changes.
pub proof fn law_each_request_is_its_own_action(m: AppView, name: Seq<char>, now: u128)
    requires
        !m.action_in_progress,
    ensures
        ({
            let busy = AppView { action_in_progress: true, ..m };
            let scope = m.current_scope;
            &&& step(m, MessageView::StartService(name), now) == (
                busy,
                TaskView::Control(scope, ServiceAction::Start, name),
            )
            &&& step(m, MessageView::StopService(name), now) == (
                busy,
                TaskView::Control(scope, ServiceAction::Stop, name),
            )
            &&& step(m, MessageView::RestartService(name), now) == (
                busy,
                TaskView::Control(scope, ServiceAction::Restart, name),
            )
            &&& step(m, MessageView::EnableService(name), now) == (
                busy,
                TaskView::Control(scope, ServiceAction::Enable, name),
            )
            &&& step(m, MessageView::DisableService(name), now) == (
                busy,
                TaskView::Control(scope, ServiceAction::Disable, name),
            )
        }),
{
}

/// When an action completes, in either scope and whatever is kept, that scope is
/// listed. The loader comes up only where nothing is kept for it; nothing else
/// changes but that no action is under way.
pub proof fn law_completion_lists_the_scope(m: AppView, now: u128)
    ensures
        ({
            let (after, task) = step(m, MessageView::ServiceActionComplete, now);
            &&& task == TaskView::LoadServices(m.current_scope)
            &&& nothing_kept(m, m.current_scope) ==> after == (AppView {
                action_in_progress: false,
                is_loading: true,
                ..m
            })
            &&& !nothing_kept(m, m.current_scope) ==> after == (AppView {
                action_in_progress: false,
                ..m
            })
        }),
{
}

/// A tick does nothing while the system's services are shown, and nothing within
/// two seconds of the last refresh.
pub proof fn law_most_ticks_do_nothing(m: AppView, now: u128)
    requires
        m.current_scope == ServiceScope::System || now < m.last_refresh + 2_000_000_000,
    ensures
        step(m, MessageView::Tick, now) == (m, TaskView::Idle),
{
}

/// A tick two seconds after the last refresh, or later, refreshes what is shown of
/// the user's services, and marks the time; nothing else changes. A selected
/// service is refreshed; else a list that is kept is listed anew; else the scope
/// is entered.
pub proof fn law_due_ticks_refresh(m: AppView, now: u128)
    requires
        m.current_scope == ServiceScope::User,
        now >= m.last_refresh + 2_000_000_000,
    ensures
        step(m, MessageView::Tick, now).0 == (AppView { last_refresh: now, ..m }),
        m.selected_service is Some ==> step(m, MessageView::Tick, now).1 == TaskView::Send(
            MessageView::RefreshCurrentService,
        ),
        m.selected_service is None && m.user_services.len() > 0 ==> step(
            m,
            MessageView::Tick,
            now,
        ).1 == TaskView::LoadServices(ServiceScope::User),
        m.selected_service is None && m.user_services.len() == 0 ==> step(
            m,
            MessageView::Tick,
            now,
        ).1 == TaskView::Send(MessageView::LoadServices(None)),
{
}

/// A refresh changes nothing by itself. It leaves the selected service to be read
/// in the current scope, or nothing if none is selected.
pub proof fn law_a_refresh_reads_the_selected_service(m: AppView, now: u128)
    ensures
        step(m, MessageView::RefreshCurrentService, now).0 == m,
        m.selected_service matches Some(s) ==> step(m, MessageView::RefreshCurrentService, now).1
            == TaskView::RefreshService(m.current_scope, s),
        m.selected_service is None ==> step(m, MessageView::RefreshCurrentService, now).1 is Idle,
{
}

/// A refreshed service is selected and its log is shown; its record goes into the
/// list of the current scope and of no other. Without a service nothing happens.
pub proof fn law_a_refreshed_service_is_taken_over(
    m: AppView,
    s: ServiceView,
    logs: Seq<char>,
    now: u128,
)
    ensures
        step(m, MessageView::CurrentServiceRefreshed(None, logs), now) == (m, TaskView::Idle),
        step(m, MessageView::CurrentServiceRefreshed(Some(s), logs), now).1 is Idle,
        m.current_scope == ServiceScope::System ==> step(
            m,
            MessageView::CurrentServiceRefreshed(Some(s), logs),
            now,
        ).0 == (AppView {
            selected_service: Some(s),
            service_logs: logs,
            system_services: put(m.system_services, s),
            ..m
        }),
        m.current_scope == ServiceScope::User ==> step(
            m,
            MessageView::CurrentServiceRefreshed(Some(s), logs),
            now,
        ).0 == (AppView {
            selected_service: Some(s),
            service_logs: logs,
            user_services: put(m.user_services, s),
            ..m
        }),
{
}

/// Toggling the page that the drawer has opens or closes the drawer; toggling
/// another one opens it with that page.
pub proof fn law_toggling_the_drawer(m: AppView, page: ContextPage, now: u128)
    ensures
        step(m, MessageView::ToggleContextPage(page), now).1 is Idle,
        m.context_page == page ==> step(m, MessageView::ToggleContextPage(page), now).0
            == (AppView { show_context: !m.show_context, ..m }),
        m.context_page != page ==> step(m, MessageView::ToggleContextPage(page), now).0
            == (AppView { context_page: page, show_context: true, ..m }),
{
}

/// A filter is kept as it is typed, and a URL is opened as it is given; neither
/// does anything else.
pub proof fn law_texts_are_taken_as_they_are(m: AppView, text: Seq<char>, now: u128)
    ensures
        step(m, MessageView::SearchFilterChanged(text), now) == (
            AppView { search_filter: text, ..m },
            TaskView::Idle,
        ),
        step(m, MessageView::LaunchUrl(text), now) == (m, TaskView::LaunchUrl(text)),
{
}

/// No message but a tick looks at the clock.
pub proof fn law_only_ticks_tell_the_time(
    m: AppView,
    message: MessageView,
    now: u128,
    later: u128,
)
    requires
        !(message is Tick),
    ensures
        step(m, message, now) == step(m, message, later),
        step(m, message, now).0.last_refresh == m.last_refresh,
{
}

/// A hundred lines of a log are asked for, and automatic refreshes are two seconds
/// apart.
pub proof fn law_limits()
    ensures
        LOG_LINES == 100,
        REFRESH_INTERVAL == 2_000_000_000,
{
}

/// The outcome of a listing is reported for the scope that was listed, list and
/// error alike; no outcome counts as an empty list of the system's services.
pub proof fn law_listings_are_reported_as_they_came(
    scope: ServiceScope,
    result: Result<Seq<ServiceView>, Seq<char>>,
)
    ensures
        listing_done(Some((scope, result))) == MessageView::ServicesLoaded(scope, result),
        listing_done(None) == MessageView::ServicesLoaded(
            ServiceScope::System,
            Ok(Seq::<ServiceView>::empty()),
        ),
{
}

/// A text that was had is shown as it is; one that was refused is shown as empty,
/// whatever the reason.
pub proof fn law_refused_texts_are_empty(text: Seq<char>)
    ensures
        text_or_empty(Ok(text)) == text,
        text_or_empty(Err(text)) == Seq::<char>::empty(),
{
}

/// Details that were looked up replace the path and the process ID of a record,
/// and nothing else of it; where they were refused, both are gone.
pub proof fn law_details_replace_path_and_process(
    s: ServiceView,
    path: Seq<char>,
    pid: Option<u32>,
    error: Seq<char>,
)
    ensures
        with_details(s, Ok((path, pid))) == (ServiceView { unit_path: path, pid: pid, ..s }),
        with_details(s, Err(error)) == with_details(s, Ok((Seq::empty(), None))),
{
}

/// A log is shown as it was read, as empty where it was refused, and as a remark
/// where nothing came of it.
pub proof fn law_shown_logs(text: Seq<char>)
    ensures
        shown_log(Some(Ok(text))) == text,
        shown_log(Some(Err(text))) == Seq::<char>::empty(),
        shown_log(None) == "No logs available"@,
{
}

/// The message for a service that was read again has the record with its details
/// and the log. Where both were refused, path, process ID and log are empty, and
/// the rest of the record stays.
pub proof fn law_refreshes_are_reported(
    s: ServiceView,
    path: Seq<char>,
    pid: Option<u32>,
    text: Seq<char>,
    error: Seq<char>,
)
    ensures
        refresh_done(s, Ok((path, pid)), Ok(text)) == MessageView::CurrentServiceRefreshed(
            Some(ServiceView { unit_path: path, pid: pid, ..s }),
            text,
        ),
        refresh_done(s, Err(error), Err(error)) == refresh_done(
            s,
            Ok((Seq::empty(), None)),
            Ok(Seq::empty()),
        ),
        refresh_done(s, Err(error), Ok(text)) == refresh_done(
            s,
            Ok((Seq::empty(), None)),
            Ok(text),
        ),
        refresh_done(s, Ok((path, pid)), Err(error)) == refresh_done(
            s,
            Ok((path, pid)),
            Ok(Seq::empty()),
        ),
{
}

/// A title is set on the main window, and on nothing if there is none.
pub proof fn law_titles_need_a_window(app_title: Seq<char>, page: Option<Seq<char>>)
    ensures
        title_task(app_title, page, true) == TaskView::SetWindowTitle(
            window_title(app_title, page),
        ),
        title_task(app_title, page, false) is Idle,
{
}

/// The title of a window is the application's, with the page behind a dash between
/// spaces where there is one.
pub proof fn law_titles(app_title: Seq<char>, page: Seq<char>)
    ensures
        window_title(app_title, None) == app_title,
        window_title(app_title, Some(page)) == app_title + seq![' ', '\u{2014}', ' '] + page,
{
    reveal_strlit(" \u{2014} ");
    assert(" \u{2014} "@ == seq![' ', '\u{2014}', ' ']);
}

} // verus!
