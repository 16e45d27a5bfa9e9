//! The values that contracts speak of are those that the program holds, field by
//! field.

use vstd::prelude::*;
use vstd::string::*;

use crate::control::{
    invocation_result, text_result, Host, Invocation, InvocationView, Route, RouteView,
};
use crate::dinit::{details_result, services_result, DinitService, ServiceAction, ServiceScope};
use crate::environment::{opt_bytes, opt_string, Environment};
use crate::listing::{opt_texts, texts};
use crate::message::{ContextPage, Message, MessageView};
use crate::paths::byte_strings;
use crate::roster::opt_service;
use crate::text::opt_text;
use crate::update::{AppModel, Task, TaskView};

verus! {

/// A service is seen with all that is known of it.
pub proof fn law_services_are_seen_whole(s: DinitService)
    ensures
        s@.name == s.name@,
        s@.load_state == s.load_state@,
        s@.active_state == s.active_state@,
        s@.sub_state == s.sub_state@,
        s@.unit_path == s.unit_path@,
        s@.unit_file_state == s.unit_file_state@,
        s@.pid == s.pid,
        s.deep_view() == s@,
{
}

/// A list of services is seen with each of them, in its order.
pub proof fn law_lists_are_seen_whole(list: Vec<DinitService>, error: String, i: int)
    ensures
        list.deep_view().len() == list@.len(),
        0 <= i < list@.len() ==> list.deep_view()[i] == list@[i]@,
        services_result(Ok(list)) == Ok::<_, Seq<char>>(list.deep_view()),
        services_result(Err(error)) is Err,
        services_result(Err(error))->Err_0 == error@,
{
}

/// The state is seen with each of its fields.
pub proof fn law_the_state_is_seen_whole(m: AppModel)
    ensures
        m@.current_scope == m.current_scope,
        m@.system_services == m.system_services.deep_view(),
        m@.user_services == m.user_services.deep_view(),
        m@.is_loading == m.is_loading,
        m.load_error matches Some(e) ==> m@.load_error == Some(e@),
        m.load_error is None ==> m@.load_error is None,
        m.selected_service matches Some(s) ==> m@.selected_service == Some(s@),
        m.selected_service is None ==> m@.selected_service is None,
        m@.current_page == m.current_page,
        m@.service_logs == m.service_logs@,
        m@.action_in_progress == m.action_in_progress,
        m@.last_refresh == m.last_refresh,
        m@.context_page == m.context_page,
        m@.show_context == m.show_context,
        m@.search_filter == m.search_filter@,
{
}

/// Each message is seen as itself, with what it carries.
pub proof fn law_messages_are_seen_whole(
    text: String,
    page: ContextPage,
    asked: Option<ServiceScope>,
    scope: ServiceScope,
    result: Result<Vec<DinitService>, String>,
    service: DinitService,
)
    ensures
        Message::LaunchUrl(text)@ == MessageView::LaunchUrl(text@),
        Message::ToggleContextPage(page)@ == MessageView::ToggleContextPage(page),
        Message::LoadServices(asked)@ == MessageView::LoadServices(asked),
        Message::ServicesLoaded(scope, result)@ == MessageView::ServicesLoaded(
            scope,
            services_result(result),
        ),
        Message::SelectService(service)@ == MessageView::SelectService(service@),
        Message::BackToList@ == MessageView::BackToList,
        Message::StartService(text)@ == MessageView::StartService(text@),
        Message::StopService(text)@ == MessageView::StopService(text@),
        Message::RestartService(text)@ == MessageView::RestartService(text@),
        Message::EnableService(text)@ == MessageView::EnableService(text@),
        Message::DisableService(text)@ == MessageView::DisableService(text@),
        Message::ServiceActionComplete@ == MessageView::ServiceActionComplete,
        Message::LogsLoaded(text)@ == MessageView::LogsLoaded(text@),
        Message::RefreshCurrentService@ == MessageView::RefreshCurrentService,
        Message::CurrentServiceRefreshed(Some(service), text)@
            == MessageView::CurrentServiceRefreshed(Some(service@), text@),
        Message::CurrentServiceRefreshed(None, text)@ == MessageView::CurrentServiceRefreshed(
            None,
            text@,
        ),
        Message::Tick@ == MessageView::Tick,
        Message::SearchFilterChanged(text)@ == MessageView::SearchFilterChanged(text@),
{
}

/// Each task is seen as itself, with what it carries.
pub proof fn law_tasks_are_seen_whole(
    scope: ServiceScope,
    text: String,
    service: DinitService,
    action: ServiceAction,
    message: Message,
)
    ensures
        Task::Idle@ == TaskView::Idle,
        Task::LoadServices(scope)@ == TaskView::LoadServices(scope),
        Task::LoadLogs(scope, text)@ == TaskView::LoadLogs(scope, text@),
        Task::RefreshService(scope, service)@ == TaskView::RefreshService(scope, service@),
        Task::Control(scope, action, text)@ == TaskView::Control(scope, action, text@),
        Task::Send(message)@ == TaskView::Send(message@),
        Task::LaunchUrl(text)@ == TaskView::LaunchUrl(text@),
        Task::SetWindowTitle(text)@ == TaskView::SetWindowTitle(text@),
{
}

/// The environment is seen with each variable under its own name.
pub proof fn law_the_environment_is_seen_whole(env: Environment)
    ensures
        env@.home == opt_bytes(env.home),
        env@.xdg_config_home == opt_bytes(env.xdg_config_home),
        env@.xdg_data_home == opt_bytes(env.xdg_data_home),
        env@.xdg_state_home == opt_bytes(env.xdg_state_home),
        env@.xdg_cache_home == opt_bytes(env.xdg_cache_home),
        env@.xdg_runtime_dir == opt_bytes(env.xdg_runtime_dir),
        env@.dinitctl == opt_bytes(env.dinitctl),
{
}

/// A host, a route and a command are seen with all that they hold.
pub proof fn law_commands_are_seen_whole(host: Host, tool: String, i: Invocation, k: int)
    ensures
        host@.root == host.root,
        host@.escalator == opt_string(host.escalator),
        host@.dinitctl == host.dinitctl@,
        Route::Direct@ == RouteView::Direct,
        Route::Escalated(tool)@ == RouteView::Escalated(tool@),
        Route::Privileged(tool)@ == RouteView::Privileged(tool@),
        i@.program == i.program@,
        i@.args.len() == i.args@.len(),
        0 <= k < i.args@.len() ==> i@.args[k] == i.args@[k]@,
        i@.route == i.route@,
{
}

/// What may be missing or refused is seen as it is: there or not, granted or not.
pub proof fn law_outcomes_are_seen_whole(
    text: String,
    bytes: Vec<u8>,
    service: DinitService,
    pid: Option<u32>,
    i: Invocation,
    s: &str,
    t: &str,
)
    ensures
        opt_string(Some(text)) == Some(text@),
        opt_string(None) is None,
        opt_bytes(Some(bytes)) == Some(bytes@),
        opt_bytes(None) is None,
        opt_service(Some(service)) == Some(service@),
        opt_service(None) is None,
        opt_text(Some(s)) == Some(s@),
        opt_text(None) is None,
        opt_texts(Some((s, t))) == Some((s@, t@)),
        opt_texts(None) is None,
        text_result(Ok(text)) == Ok::<Seq<char>, Seq<char>>(text@),
        text_result(Err(text)) == Err::<Seq<char>, Seq<char>>(text@),
        details_result(Ok((text, pid))) == Ok::<(Seq<char>, Option<u32>), Seq<char>>((text@, pid)),
        details_result(Err(text)) == Err::<(Seq<char>, Option<u32>), Seq<char>>(text@),
        invocation_result(Ok(i)) == Ok::<InvocationView, Seq<char>>(i@),
        invocation_result(Err(text)) == Err::<InvocationView, Seq<char>>(text@),
{
}

/// A list of byte strings, or of pairs of texts, is seen with each of them, in its
/// order.
pub proof fn law_sequences_are_seen_whole(v: Seq<Vec<u8>>, p: Seq<(&str, &str)>, i: int)
    ensures
        byte_strings(v).len() == v.len(),
        0 <= i < v.len() ==> byte_strings(v)[i] == v[i]@,
        texts(p).len() == p.len(),
        0 <= i < p.len() ==> texts(p)[i] == (p[i].0@, p[i].1@),
{
}

} // verus!
