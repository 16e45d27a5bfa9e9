//! The state of the application and how messages change it.
//!
//! A message changes the state at once and may leave a [`Task`]: work that the
//! application runs, and whose result comes back as another message.

use vstd::prelude::*;
use vstd::string::*;

use crate::control::text_result;
use crate::dinit::{
    details_result, services_result, DinitService, ServiceAction, ServiceScope, ServiceView,
};
use crate::environment::opt_string;
use crate::message::{ContextPage, Message, MessageView};
use crate::roster::{
    find_service, lookup, opt_service, put, refresh_services, refreshed, replace_service,
};
use crate::text::opt_text;

verus! {

/// How many lines of a log are shown.
pub const LOG_LINES: u32 = 100;

/// How long automatic refreshes are apart at least, in nanoseconds.
pub const REFRESH_INTERVAL: u128 = 2_000_000_000;

/// What the window shows.
#[derive(Debug, Clone, Copy, PartialEq, Eq, Structural)]
pub enum Page {
    SystemServices,
    UserServices,
    Details,
}

/// The state of the application.
#[derive(Debug)]
pub struct AppModel {
    pub current_scope: ServiceScope,
    pub system_services: Vec<DinitService>,
    pub user_services: Vec<DinitService>,
    pub is_loading: bool,
    pub load_error: Option<String>,
    pub selected_service: Option<DinitService>,
    pub current_page: Page,
    pub service_logs: String,
    pub action_in_progress: bool,
    /// When the last automatic refresh was, in nanoseconds of a clock that never
    /// goes back.
    pub last_refresh: u128,
    pub context_page: ContextPage,
    /// Whether the drawer with the context page is open.
    pub show_context: bool,
    pub search_filter: String,
}

/// The value of an [`AppModel`].
#[verifier::ext_equal]
pub struct AppView {
    pub current_scope: ServiceScope,
    pub system_services: Seq<ServiceView>,
    pub user_services: Seq<ServiceView>,
    pub is_loading: bool,
    pub load_error: Option<Seq<char>>,
    pub selected_service: Option<ServiceView>,
    pub current_page: Page,
    pub service_logs: Seq<char>,
    pub action_in_progress: bool,
    pub last_refresh: u128,
    pub context_page: ContextPage,
    pub show_context: bool,
    pub search_filter: Seq<char>,
}

impl View for AppModel {
    type V = AppView;

    open spec fn view(&self) -> AppView {
        AppView {
            current_scope: self.current_scope,
            system_services: self.system_services.deep_view(),
            user_services: self.user_services.deep_view(),
            is_loading: self.is_loading,
            load_error: opt_string(self.load_error),
            selected_service: opt_service(self.selected_service),
            current_page: self.current_page,
            service_logs: self.service_logs@,
            action_in_progress: self.action_in_progress,
            last_refresh: self.last_refresh,
            context_page: self.context_page,
            show_context: self.show_context,
            search_filter: self.search_filter@,
        }
    }
}

/// Work that a message leaves for the application to run.
#[derive(Debug)]
pub enum Task {
    /// There is nothing to do.
    Idle,
    /// The services of a scope are to be listed, for a
    /// [`Message::ServicesLoaded`].
    LoadServices(ServiceScope),
    /// The log of a service is to be read, for a [`Message::LogsLoaded`].
    LoadLogs(ServiceScope, String),
    /// The details and the log of a service are to be read, for a
    /// [`Message::CurrentServiceRefreshed`].
    RefreshService(ServiceScope, DinitService),
    /// An action is to be done to a service, for a
    /// [`Message::ServiceActionComplete`].
    Control(ServiceScope, ServiceAction, String),
    /// A message is to be delivered.
    Send(Message),
    /// A URL is to be opened.
    LaunchUrl(String),
    /// The window's title is to be set.
    SetWindowTitle(String),
}

/// The value of a [`Task`].
pub enum TaskView {
    Idle,
    LoadServices(ServiceScope),
    LoadLogs(ServiceScope, Seq<char>),
    RefreshService(ServiceScope, ServiceView),
    Control(ServiceScope, ServiceAction, Seq<char>),
    Send(MessageView),
    LaunchUrl(Seq<char>),
    SetWindowTitle(Seq<char>),
}

impl View for Task {
    type V = TaskView;

    open spec fn view(&self) -> TaskView {
        match *self {
            Task::Idle => TaskView::Idle,
            Task::LoadServices(scope) => TaskView::LoadServices(scope),
            Task::LoadLogs(scope, name) => TaskView::LoadLogs(scope, name@),
            Task::RefreshService(scope, service) => TaskView::RefreshService(scope, service@),
            Task::Control(scope, action, name) => TaskView::Control(scope, action, name@),
            Task::Send(message) => TaskView::Send(message@),
            Task::LaunchUrl(url) => TaskView::LaunchUrl(url@),
            Task::SetWindowTitle(title) => TaskView::SetWindowTitle(title@),
        }
    }
}

impl AppView {
    /// The services that are kept for a scope.
    pub open spec fn services(self, scope: ServiceScope) -> Seq<ServiceView> {
        match scope {
            ServiceScope::System => self.system_services,
            ServiceScope::User => self.user_services,
        }
    }

    /// The state with other services for a scope.
    pub open spec fn with_services(self, scope: ServiceScope, list: Seq<ServiceView>) -> AppView {
        match scope {
            ServiceScope::System => AppView { system_services: list, ..self },
            ServiceScope::User => AppView { user_services: list, ..self },
        }
    }
}

/// The page that lists the services of a scope.
pub open spec fn list_page(scope: ServiceScope) -> Page {
    match scope {
        ServiceScope::System => Page::SystemServices,
        ServiceScope::User => Page::UserServices,
    }
}

/// A scope is entered. Services that are already there are shown without a new
/// listing, which might ask for a password; else the services are listed, and
/// the loader is shown.
pub open spec fn load_services(m: AppView, asked: Option<ServiceScope>) -> (AppView, TaskView) {
    let scope = match asked {
        Some(s) => s,
        None => m.current_scope,
    };
    if m.services(scope).len() > 0 {
        (AppView { current_scope: scope, ..m }, TaskView::Idle)
    } else {
        (
            AppView { current_scope: scope, is_loading: true, ..m },
            TaskView::LoadServices(scope),
        )
    }
}

/// A list has come for a scope, or an error in place of one, which counts as an
/// empty list. The selected service is looked up in it again.
pub open spec fn services_arrived(
    m: AppView,
    scope: ServiceScope,
    services: Result<Seq<ServiceView>, Seq<char>>,
) -> AppView {
    let (news, error) = match services {
        Ok(list) => (list, None),
        Err(e) => (Seq::empty(), Some(e)),
    };
    let list = refreshed(m.services(scope), news);
    AppView {
        is_loading: false,
        load_error: error,
        selected_service: match m.selected_service {
            Some(s) => lookup(list, s.name),
            None => None,
        },
        ..m.with_services(scope, list)
    }
}

/// An action is asked for. It is done unless another one is under way.
pub open spec fn act(m: AppView, action: ServiceAction, name: Seq<char>) -> (AppView, TaskView) {
    if m.action_in_progress {
        (m, TaskView::Idle)
    } else {
        (
            AppView { action_in_progress: true, ..m },
            TaskView::Control(m.current_scope, action, name),
        )
    }
}

/// An action is done. What it changed is listed anew, whether services are there
/// already or not; the loader is shown only if none are.
pub open spec fn action_done(m: AppView) -> (AppView, TaskView) {
    (
        AppView {
            action_in_progress: false,
            is_loading: m.is_loading || m.services(m.current_scope).len() == 0,
            ..m
        },
        TaskView::LoadServices(m.current_scope),
    )
}

/// The time between two readings of the clock.
pub open spec fn elapsed(since: u128, now: u128) -> int {
    if now >= since {
        now - since
    } else {
        0
    }
}

/// The clock has ticked. Only the user's services are refreshed by themselves,
/// for reads of the system's might ask for a password, and no more often than
/// the interval allows. It is the selected service that is refreshed, or else the
/// list: one that is kept is listed anew, and one that is not there yet is asked
/// for.
pub open spec fn tick(m: AppView, now: u128) -> (AppView, TaskView) {
    if m.current_scope != ServiceScope::User || elapsed(m.last_refresh, now) < REFRESH_INTERVAL {
        (m, TaskView::Idle)
    } else {
        (
            AppView { last_refresh: now, ..m },
            if m.selected_service is Some {
                TaskView::Send(MessageView::RefreshCurrentService)
            } else if m.user_services.len() > 0 {
                TaskView::LoadServices(ServiceScope::User)
            } else {
                TaskView::Send(MessageView::LoadServices(None))
            },
        )
    }
}

/// How a message changes the state, and what it leaves to do. `now` is the
/// reading of the clock.
pub open spec fn step(m: AppView, message: MessageView, now: u128) -> (AppView, TaskView) {
    match message {
        MessageView::LoadServices(scope) => load_services(m, scope),
        MessageView::ServicesLoaded(scope, services) => (
            services_arrived(m, scope, services),
            TaskView::Idle,
        ),
        MessageView::SelectService(service) => (
            AppView { selected_service: Some(service), current_page: Page::Details, ..m },
            TaskView::LoadLogs(m.current_scope, service.name),
        ),
        MessageView::LogsLoaded(logs) => (AppView { service_logs: logs, ..m }, TaskView::Idle),
        MessageView::BackToList => (
            AppView { selected_service: None, current_page: list_page(m.current_scope), ..m },
            TaskView::Idle,
        ),
        MessageView::StartService(name) => act(m, ServiceAction::Start, name),
        MessageView::StopService(name) => act(m, ServiceAction::Stop, name),
        MessageView::RestartService(name) => act(m, ServiceAction::Restart, name),
        MessageView::EnableService(name) => act(m, ServiceAction::Enable, name),
        MessageView::DisableService(name) => act(m, ServiceAction::Disable, name),
        MessageView::ServiceActionComplete => action_done(m),
        MessageView::Tick => tick(m, now),
        MessageView::RefreshCurrentService => (
            m,
            match m.selected_service {
                Some(service) => TaskView::RefreshService(m.current_scope, service),
                None => TaskView::Idle,
            },
        ),
        MessageView::CurrentServiceRefreshed(service, logs) => (
            match service {
                Some(s) => AppView {
                    selected_service: Some(s),
                    service_logs: logs,
                    ..m.with_services(m.current_scope, put(m.services(m.current_scope), s))
                },
                None => m,
            },
            TaskView::Idle,
        ),
        MessageView::ToggleContextPage(page) => (
            if m.context_page == page {
                AppView { show_context: !m.show_context, ..m }
            } else {
                AppView { context_page: page, show_context: true, ..m }
            },
            TaskView::Idle,
        ),
        MessageView::SearchFilterChanged(filter) => (
            AppView { search_filter: filter, ..m },
            TaskView::Idle,
        ),
        MessageView::LaunchUrl(url) => (m, TaskView::LaunchUrl(url)),
    }
}

/// The title of a window: that of the application, and the page behind a dash.
pub open spec fn window_title(app_title: Seq<char>, page: Option<Seq<char>>) -> Seq<char> {
    match page {
        Some(p) => app_title + " \u{2014} "@ + p,
        None => app_title,
    }
}

/// What is left to do for a title: it is set on the main window, if there is one.
pub open spec fn title_task(
    app_title: Seq<char>,
    page: Option<Seq<char>>,
    main_window: bool,
) -> TaskView {
    if main_window {
        TaskView::SetWindowTitle(window_title(app_title, page))
    } else {
        TaskView::Idle
    }
}

impl AppModel {
    /// Leaves the title of the main window to be set, if there is one: the title
    /// of the application, and the active page of the navigation.
    pub fn update_title(&self, app_title: &str, active_page: Option<&str>, main_window: bool) -> (
        task: Task)
        ensures
            task@ == title_task(app_title@, opt_text(active_page), main_window),
    {
        let mut title = app_title.to_string();
        if let Some(page) = active_page {
            title.append(" \u{2014} ");
            title.append(page);
        }
        if main_window {
            Task::SetWindowTitle(title)
        } else {
            Task::Idle
        }
    }

    fn has_services(&self, scope: ServiceScope) -> (b: bool)
        ensures
            b == (self@.services(scope).len() > 0),
    {
        match scope {
            ServiceScope::System => self.system_services.len() > 0,
            ServiceScope::User => self.user_services.len() > 0,
        }
    }

    fn load(&mut self, asked: Option<ServiceScope>) -> (task: Task)
        ensures
            (final(self)@, task@) == load_services(old(self)@, asked),
    {
        let scope = match asked {
            Some(s) => s,
            None => self.current_scope,
        };
        let already_loaded = self.has_services(scope);
        self.current_scope = scope;
        if already_loaded {
            return Task::Idle;
        }
        self.is_loading = true;
        Task::LoadServices(scope)
    }

    fn take_services(&mut self, scope: ServiceScope, services: Result<Vec<DinitService>, String>)
        ensures
            final(self)@ == services_arrived(old(self)@, scope, services_result(services)),
    {
        self.is_loading = false;
        let news: Vec<DinitService> = match services {
            Ok(list) => {
                self.load_error = None;
                list
            },
            Err(e) => {
                self.load_error = Some(e);
                Vec::new()
            },
        };
        assert(services is Err ==> news.deep_view() == Seq::<ServiceView>::empty());
        match scope {
            ServiceScope::System => {
                refresh_services(&mut self.system_services, news);
                if let Some(s) = &self.selected_service {
                    self.selected_service = find_service(&self.system_services, &s.name);
                }
            },
            ServiceScope::User => {
                refresh_services(&mut self.user_services, news);
                if let Some(s) = &self.selected_service {
                    self.selected_service = find_service(&self.user_services, &s.name);
                }
            },
        }
    }

    fn start_action(&mut self, action: ServiceAction, name: String) -> (task: Task)
        ensures
            (final(self)@, task@) == act(old(self)@, action, name@),
    {
        if self.action_in_progress {
            return Task::Idle;
        }
        self.action_in_progress = true;
        Task::Control(self.current_scope, action, name)
    }

    fn finish_action(&mut self) -> (task: Task)
        ensures
            (final(self)@, task@) == action_done(old(self)@),
    {
        self.action_in_progress = false;
        if !self.has_services(self.current_scope) {
            self.is_loading = true;
        }
        Task::LoadServices(self.current_scope)
    }

    fn tick(&mut self, now: u128) -> (task: Task)
        ensures
            (final(self)@, task@) == tick(old(self)@, now),
    {
        if self.current_scope != ServiceScope::User {
            return Task::Idle;
        }
        let since: u128 = if now >= self.last_refresh {
            now - self.last_refresh
        } else {
            0
        };
        if since < REFRESH_INTERVAL {
            return Task::Idle;
        }
        self.last_refresh = now;
        if self.selected_service.is_some() {
            Task::Send(Message::RefreshCurrentService)
        } else if self.has_services(ServiceScope::User) {
            Task::LoadServices(ServiceScope::User)
        } else {
            Task::Send(Message::LoadServices(None))
        }
    }

    /// Handles a message of the application and its widgets: changes the state,
    /// and says what is left to do. `now` is the reading of the clock, in
    /// nanoseconds.
    pub fn update_message(&mut self, message: Message, now: u128) -> (task: Task)
        ensures
            (final(self)@, task@) == step(old(self)@, message@, now),
    {
        match message {
            Message::LoadServices(scope) => self.load(scope),
            Message::ServicesLoaded(scope, services) => {
                self.take_services(scope, services);
                Task::Idle
            },
            Message::SelectService(service) => {
                let name = service.name.clone();
                self.selected_service = Some(service);
                self.current_page = Page::Details;
                Task::LoadLogs(self.current_scope, name)
            },
            Message::LogsLoaded(logs) => {
                self.service_logs = logs;
                Task::Idle
            },
            Message::BackToList => {
                self.selected_service = None;
                self.current_page = match self.current_scope {
                    ServiceScope::System => Page::SystemServices,
                    ServiceScope::User => Page::UserServices,
                };
                Task::Idle
            },
            Message::StartService(name) => self.start_action(ServiceAction::Start, name),
            Message::StopService(name) => self.start_action(ServiceAction::Stop, name),
            Message::RestartService(name) => self.start_action(ServiceAction::Restart, name),
            Message::EnableService(name) => self.start_action(ServiceAction::Enable, name),
            Message::DisableService(name) => self.start_action(ServiceAction::Disable, name),
            Message::ServiceActionComplete => self.finish_action(),
            Message::Tick => self.tick(now),
            Message::RefreshCurrentService => match &self.selected_service {
                Some(service) => Task::RefreshService(self.current_scope, service.clone()),
                None => Task::Idle,
            },
            Message::CurrentServiceRefreshed(service, logs) => {
                if let Some(updated) = service {
                    self.selected_service = Some(updated.clone());
                    self.service_logs = logs;
                    match self.current_scope {
                        ServiceScope::System => replace_service(&mut self.system_services, updated),
                        ServiceScope::User => replace_service(&mut self.user_services, updated),
                    }
                }
                Task::Idle
            },
            Message::ToggleContextPage(page) => {
                if self.context_page == page {
                    self.show_context = !self.show_context;
                } else {
                    self.context_page = page;
                    self.show_context = true;
                }
                Task::Idle
            },
            Message::SearchFilterChanged(filter) => {
                self.search_filter = filter;
                Task::Idle
            },
            Message::LaunchUrl(url) => Task::LaunchUrl(url),
        }
    }
}

/// The message for a listing that was run: its scope and what came of it.
pub open spec fn listing_done(
    result: Option<(ServiceScope, Result<Seq<ServiceView>, Seq<char>>)>,
) -> MessageView {
    match result {
        Some((scope, services)) => MessageView::ServicesLoaded(scope, services),
        None => MessageView::ServicesLoaded(ServiceScope::System, Ok(Seq::empty())),
    }
}

/// The message for a listing that was run; without a result, nothing is listed.
pub fn services_loaded(
    result: Option<(ServiceScope, Result<Vec<DinitService>, String>)>,
) -> (message: Message)
    ensures
        message@ == listing_done(
            match result {
                Some((scope, services)) => Some((scope, services_result(services))),
                None => None,
            },
        ),
{
    match result {
        Some((scope, services)) => Message::ServicesLoaded(scope, services),
        None => {
            let none: Vec<DinitService> = Vec::new();
            assert(none.deep_view() == Seq::<ServiceView>::empty());
            Message::ServicesLoaded(ServiceScope::System, Ok(none))
        },
    }
}

/// A text that may be refused, or nothing in its place.
pub open spec fn text_or_empty(r: Result<Seq<char>, Seq<char>>) -> Seq<char> {
    match r {
        Ok(t) => t,
        Err(_) => Seq::empty(),
    }
}

/// What is shown of a log that was read: a remark if there is no result.
pub open spec fn shown_log(result: Option<Result<Seq<char>, Seq<char>>>) -> Seq<char> {
    match result {
        Some(logs) => text_or_empty(logs),
        None => "No logs available"@,
    }
}

/// The message for a log that was read. One that could not be read is shown as
/// empty; without a result, a remark is shown.
pub fn logs_loaded(result: Option<Result<String, String>>) -> (message: Message)
    ensures
        message@ == MessageView::LogsLoaded(
            shown_log(
                match result {
                    Some(logs) => Some(text_result(logs)),
                    None => None,
                },
            ),
        ),
{
    match result {
        Some(Ok(logs)) => Message::LogsLoaded(logs),
        Some(Err(_)) => Message::LogsLoaded(String::new()),
        None => Message::LogsLoaded("No logs available".to_string()),
    }
}

/// A service with details that were looked up: none in place of what could not be
/// had.
pub open spec fn with_details(
    s: ServiceView,
    details: Result<(Seq<char>, Option<u32>), Seq<char>>,
) -> ServiceView {
    match details {
        Ok((path, pid)) => ServiceView { unit_path: path, pid: pid, ..s },
        Err(_) => ServiceView { unit_path: Seq::empty(), pid: None, ..s },
    }
}

/// The message for a service whose details and log were read.
pub open spec fn refresh_done(
    base: ServiceView,
    details: Result<(Seq<char>, Option<u32>), Seq<char>>,
    logs: Result<Seq<char>, Seq<char>>,
) -> MessageView {
    MessageView::CurrentServiceRefreshed(Some(with_details(base, details)), text_or_empty(logs))
}

/// The message for a service whose details and log were read; without a result,
/// nothing is known of it.
pub fn service_refreshed(
    result: Option<(DinitService, Result<(String, Option<u32>), String>, Result<String, String>)>,
) -> (message: Message)
    ensures
        message@ == (match result {
            Some((base, details, logs)) => refresh_done(
                base@,
                details_result(details),
                text_result(logs),
            ),
            None => MessageView::CurrentServiceRefreshed(None, Seq::empty()),
        }),
{
    match result {
        Some((base, details, logs)) => {
            let (unit_path, pid) = match details {
                Ok((path, pid)) => (path, pid),
                Err(_) => (String::new(), None),
            };
            let mut updated = base;
            updated.unit_path = unit_path;
            updated.pid = pid;
            let shown = match logs {
                Ok(t) => t,
                Err(_) => String::new(),
            };
            Message::CurrentServiceRefreshed(Some(updated), shown)
        },
        None => Message::CurrentServiceRefreshed(None, String::new()),
    }
}

} // verus!
