//! What the application and its widgets can ask for.

use vstd::prelude::*;

use crate::dinit::{services_result, DinitService, ServiceScope, ServiceView};
use crate::roster::opt_service;

verus! {

/// A page of the drawer beside the window's content, by its number.
#[derive(Debug, Clone, Copy, PartialEq, Eq, Structural)]
pub struct ContextPage(pub u32);

/// Messages emitted by the application and its widgets.
#[derive(Debug)]
pub enum Message {
    LaunchUrl(String),
    ToggleContextPage(ContextPage),
    LoadServices(Option<ServiceScope>),
    ServicesLoaded(ServiceScope, Result<Vec<DinitService>, String>),
    SelectService(DinitService),
    BackToList,
    StartService(String),
    StopService(String),
    RestartService(String),
    EnableService(String),
    DisableService(String),
    ServiceActionComplete,
    LogsLoaded(String),
    RefreshCurrentService,
    CurrentServiceRefreshed(Option<DinitService>, String),
    Tick,
    SearchFilterChanged(String),
}

/// The value of a [`Message`].
pub enum MessageView {
    LaunchUrl(Seq<char>),
    ToggleContextPage(ContextPage),
    LoadServices(Option<ServiceScope>),
    ServicesLoaded(ServiceScope, Result<Seq<ServiceView>, Seq<char>>),
    SelectService(ServiceView),
    BackToList,
    StartService(Seq<char>),
    StopService(Seq<char>),
    RestartService(Seq<char>),
    EnableService(Seq<char>),
    DisableService(Seq<char>),
    ServiceActionComplete,
    LogsLoaded(Seq<char>),
    RefreshCurrentService,
    CurrentServiceRefreshed(Option<ServiceView>, Seq<char>),
    Tick,
    SearchFilterChanged(Seq<char>),
}

impl View for Message {
    type V = MessageView;

    open spec fn view(&self) -> MessageView {
        match *self {
            Message::LaunchUrl(url) => MessageView::LaunchUrl(url@),
            Message::ToggleContextPage(page) => MessageView::ToggleContextPage(page),
            Message::LoadServices(scope) => MessageView::LoadServices(scope),
            Message::ServicesLoaded(scope, services) => MessageView::ServicesLoaded(
                scope,
                services_result(services),
            ),
            Message::SelectService(service) => MessageView::SelectService(service@),
            Message::BackToList => MessageView::BackToList,
            Message::StartService(name) => MessageView::StartService(name@),
            Message::StopService(name) => MessageView::StopService(name@),
            Message::RestartService(name) => MessageView::RestartService(name@),
            Message::EnableService(name) => MessageView::EnableService(name@),
            Message::DisableService(name) => MessageView::DisableService(name@),
            Message::ServiceActionComplete => MessageView::ServiceActionComplete,
            Message::LogsLoaded(logs) => MessageView::LogsLoaded(logs@),
            Message::RefreshCurrentService => MessageView::RefreshCurrentService,
            Message::CurrentServiceRefreshed(
                service,
                logs,
            ) => MessageView::CurrentServiceRefreshed(opt_service(service), logs@),
            Message::Tick => MessageView::Tick,
            Message::SearchFilterChanged(filter) => MessageView::SearchFilterChanged(filter@),
        }
    }
}

fn clone_services(list: &Vec<DinitService>) -> (out: Vec<DinitService>)
    ensures
        out.deep_view() == list.deep_view(),
{
    let mut out: Vec<DinitService> = Vec::new();
    let mut i: usize = 0;
    while i < list.len()
        invariant
            i <= list@.len(),
            out@.len() == i,
            forall|j: int| 0 <= j < i ==> (#[trigger] out@[j])@ == list@[j]@,
        decreases list@.len() - i,
    {
        out.push(list[i].clone());
        i += 1;
    }
    assert(out.deep_view() == list.deep_view());
    out
}

impl Clone for Message {
    fn clone(&self) -> (m: Self)
        ensures
            m@ == self@,
    {
        match self {
            Message::LaunchUrl(url) => Message::LaunchUrl(url.clone()),
            Message::ToggleContextPage(page) => Message::ToggleContextPage(*page),
            Message::LoadServices(scope) => Message::LoadServices(*scope),
            Message::ServicesLoaded(scope, Ok(list)) => Message::ServicesLoaded(
                *scope,
                Ok(clone_services(list)),
            ),
            Message::ServicesLoaded(scope, Err(e)) => Message::ServicesLoaded(
                *scope,
                Err(e.clone()),
            ),
            Message::SelectService(service) => Message::SelectService(service.clone()),
            Message::BackToList => Message::BackToList,
            Message::StartService(name) => Message::StartService(name.clone()),
            Message::StopService(name) => Message::StopService(name.clone()),
            Message::RestartService(name) => Message::RestartService(name.clone()),
            Message::EnableService(name) => Message::EnableService(name.clone()),
            Message::DisableService(name) => Message::DisableService(name.clone()),
            Message::ServiceActionComplete => Message::ServiceActionComplete,
            Message::LogsLoaded(logs) => Message::LogsLoaded(logs.clone()),
            Message::RefreshCurrentService => Message::RefreshCurrentService,
            Message::CurrentServiceRefreshed(
                Some(service),
                logs,
            ) => Message::CurrentServiceRefreshed(Some(service.clone()), logs.clone()),
            Message::CurrentServiceRefreshed(None, logs) => Message::CurrentServiceRefreshed(
                None,
                logs.clone(),
            ),
            Message::Tick => Message::Tick,
            Message::SearchFilterChanged(filter) => Message::SearchFilterChanged(filter.clone()),
        }
    }
}

} // verus!
