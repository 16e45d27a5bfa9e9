//! Services, scopes and the service manager.

use vstd::prelude::*;
use vstd::string::*;
use vstd::utf8::encode_utf8;

use crate::control::{
    change, dinitctl_change, dinitctl_query, dinitctl_unprivileged, invocation_result, query,
    text_result, unprivileged, Host, HostView, Invocation, InvocationView,
};
use crate::details::{find_logfile, logfile_path, parse_status, reported_file, reported_pid};
use crate::environment::{opt_string, Environment, EnvironmentView};
use crate::listing::{classify_states, listed, marker_states, parse_list, texts};
use crate::paths::{
    any_exists, byte_strings, candidate_paths, enable_links, enabling_links, find_present,
    first_present, service_file_candidates, some_exists,
};
use crate::text::{joined, last_of, lines, opt_text, tail_lines};

verus! {

/// Whose services: those of the system, or those of the user.
#[derive(Debug, Clone, Copy, PartialEq, Eq, Structural)]
pub enum ServiceScope {
    System,
    User,
}

impl ServiceScope {
    /// The option that makes `dinitctl` talk to this scope.
    pub open spec fn flag(self) -> Seq<char> {
        match self {
            ServiceScope::System => "-s"@,
            ServiceScope::User => "-u"@,
        }
    }

    /// The option that makes `dinitctl` talk to this scope.
    pub fn dinitctl_flag(self) -> (flag: &'static str)
        ensures
            flag@ == self.flag(),
    {
        match self {
            ServiceScope::System => "-s",
            ServiceScope::User => "-u",
        }
    }

    /// Whether control of this scope takes more rights than the process has: the
    /// control socket of the system instance belongs to root alone.
    pub open spec fn elevated(self, root: bool) -> bool {
        self == ServiceScope::System && !root
    }

    /// Whether control of this scope takes more rights than the process has,
    /// which runs as root or does not.
    pub fn requires_elevation(self, root: bool) -> (b: bool)
        ensures
            b == self.elevated(root),
    {
        self == ServiceScope::System && !root
    }
}

/// What is known of a service.
#[derive(Debug)]
pub struct DinitService {
    pub name: String,
    pub load_state: String,
    pub active_state: String,
    pub sub_state: String,
    /// The description file, once it has been looked up.
    pub unit_path: String,
    pub unit_file_state: String,
    /// The process ID, once it has been looked up.
    pub pid: Option<u32>,
}

/// The value of a [`DinitService`].
#[verifier::ext_equal]
pub struct ServiceView {
    pub name: Seq<char>,
    pub load_state: Seq<char>,
    pub active_state: Seq<char>,
    pub sub_state: Seq<char>,
    pub unit_path: Seq<char>,
    pub unit_file_state: Seq<char>,
    pub pid: Option<u32>,
}

impl View for DinitService {
    type V = ServiceView;

    open spec fn view(&self) -> ServiceView {
        ServiceView {
            name: self.name@,
            load_state: self.load_state@,
            active_state: self.active_state@,
            sub_state: self.sub_state@,
            unit_path: self.unit_path@,
            unit_file_state: self.unit_file_state@,
            pid: self.pid,
        }
    }
}

impl DeepView for DinitService {
    type V = ServiceView;

    open spec fn deep_view(&self) -> ServiceView {
        self@
    }
}

impl Clone for DinitService {
    fn clone(&self) -> (s: Self)
        ensures
            s@ == self@,
    {
        DinitService {
            name: self.name.clone(),
            load_state: self.load_state.clone(),
            active_state: self.active_state.clone(),
            sub_state: self.sub_state.clone(),
            unit_path: self.unit_path.clone(),
            unit_file_state: self.unit_file_state.clone(),
            pid: self.pid,
        }
    }
}

/// The value of a list of services that may be refused.
pub open spec fn services_result(r: Result<Vec<DinitService>, String>) -> Result<
    Seq<ServiceView>,
    Seq<char>,
> {
    match r {
        Ok(v) => Ok(v.deep_view()),
        Err(e) => Err(e@),
    }
}

/// The value of details that may be refused.
pub open spec fn details_result(r: Result<(String, Option<u32>), String>) -> Result<
    (Seq<char>, Option<u32>),
    Seq<char>,
> {
    match r {
        Ok((path, pid)) => Ok((path@, pid)),
        Err(e) => Err(e@),
    }
}

/// What a user can do to a service.
#[derive(Debug, Clone, Copy, PartialEq, Eq, Structural)]
pub enum ServiceAction {
    Start,
    Stop,
    Restart,
    Enable,
    Disable,
}

impl ServiceAction {
    /// The `dinitctl` command for the action.
    pub open spec fn verb(self) -> Seq<char> {
        match self {
            ServiceAction::Start => "start"@,
            ServiceAction::Stop => "stop"@,
            ServiceAction::Restart => "restart"@,
            ServiceAction::Enable => "enable"@,
            ServiceAction::Disable => "disable"@,
        }
    }
}

/// The command whose output lists the services of a scope.
pub open spec fn list_command(scope: ServiceScope, host: HostView) -> InvocationView {
    query(seq!["list"@], scope, host)
}

/// The command whose output is the status report of a service.
pub open spec fn status_command(
    scope: ServiceScope,
    name: Seq<char>,
    dinitctl: Seq<char>,
) -> InvocationView {
    unprivileged(seq!["status"@, name], scope, dinitctl)
}

/// The command for an action on a service, or why there is none.
pub open spec fn action_command(
    action: ServiceAction,
    name: Seq<char>,
    scope: ServiceScope,
    host: HostView,
) -> Result<InvocationView, Seq<char>> {
    change(seq![action.verb(), name], scope, host)
}

/// Whether the service `name` is enabled, in words. A link among `existing`
/// enables it. Without one it is neither enabled nor disabled, but static, if its
/// description file is among `files`; else it is disabled.
pub open spec fn enabled_state(
    scope: ServiceScope,
    name: Seq<char>,
    env: EnvironmentView,
    existing: Seq<Seq<u8>>,
    files: Seq<Seq<char>>,
) -> Seq<char> {
    if any_exists(enabling_links(scope, name, env), existing) {
        "enabled"@
    } else if first_present(candidate_paths(scope, name, env), files) is Some {
        "static"@
    } else {
        "disabled"@
    }
}

/// A service as the list shows it: its details are not looked up yet.
pub open spec fn listed_service(
    entry: (Seq<char>, Seq<char>),
    scope: ServiceScope,
    env: EnvironmentView,
    existing: Seq<Seq<u8>>,
    files: Seq<Seq<char>>,
) -> ServiceView {
    let states = marker_states(encode_utf8(entry.0));
    ServiceView {
        name: entry.1,
        load_state: "loaded"@,
        active_state: states.0,
        sub_state: states.1,
        unit_path: Seq::empty(),
        unit_file_state: enabled_state(scope, entry.1, env, existing, files),
        pid: None,
    }
}

/// The services that a list shows, in its order.
pub open spec fn listed_services(
    output: Seq<char>,
    scope: ServiceScope,
    env: EnvironmentView,
    existing: Seq<Seq<u8>>,
    files: Seq<Seq<char>>,
) -> Seq<ServiceView> {
    let entries = listed(output);
    Seq::new(entries.len(), |i: int| listed_service(entries[i], scope, env, existing, files))
}

/// The services that the outcome of the list command shows: none but an error if
/// there is no list.
pub open spec fn services_of(
    listing: Result<Seq<char>, Seq<char>>,
    scope: ServiceScope,
    env: EnvironmentView,
    existing: Seq<Seq<u8>>,
    files: Seq<Seq<char>>,
) -> Result<Seq<ServiceView>, Seq<char>> {
    match listing {
        Ok(output) => Ok(listed_services(output, scope, env, existing, files)),
        Err(e) => Err(e),
    }
}

/// Every link that tells whether a service of a list is enabled.
pub open spec fn links_of_list(output: Seq<char>, scope: ServiceScope, env: EnvironmentView) -> Seq<
    Seq<u8>,
> {
    listed(output).flat_map(
        |entry: (Seq<char>, Seq<char>)| enabling_links(scope, entry.1, env),
    )
}

/// Every path at which the description file of a service of a list may lie.
pub open spec fn files_of_list(output: Seq<char>, scope: ServiceScope, env: EnvironmentView) -> Seq<
    Seq<char>,
> {
    listed(output).flat_map(
        |entry: (Seq<char>, Seq<char>)| candidate_paths(scope, entry.1, env),
    )
}

/// What is shown of a service: the description file and the process ID of the
/// status report, if there is one. Where it names no file, the first candidate
/// that is among `files` is shown.
pub open spec fn service_details(
    scope: ServiceScope,
    name: Seq<char>,
    status: Result<Seq<char>, Seq<char>>,
    env: EnvironmentView,
    files: Seq<Seq<char>>,
) -> (Seq<char>, Option<u32>) {
    let (file, pid) = match status {
        Ok(output) => (reported_file(lines(output)), reported_pid(lines(output))),
        Err(_) => (Seq::empty(), None),
    };
    if file.len() > 0 {
        (file, pid)
    } else {
        match first_present(candidate_paths(scope, name, env), files) {
            Some(path) => (path, pid),
            None => (Seq::empty(), pid),
        }
    }
}

/// The log file that a description file names: none if there is no description.
pub open spec fn described_log(
    description: Option<Seq<char>>,
    env: EnvironmentView,
) -> Option<Seq<char>> {
    match description {
        Some(d) => logfile_path(d, env),
        None => None,
    }
}

/// A log file and what came of reading it.
#[derive(Debug)]
pub struct LogRead {
    pub path: String,
    /// What the file holds, or why it could not be read.
    pub data: Result<String, String>,
}

/// What is shown of a log: the last lines of the log file, or a message that says
/// why there are none.
pub open spec fn service_logs(log: Option<LogRead>, count: nat) -> Result<Seq<char>, Seq<char>> {
    match log {
        Some(read) => match read.data {
            Ok(data) => Ok(joined(last_of(lines(data@), count))),
            Err(e) => Err("logfile "@ + read.path@ + ": "@ + e@),
        },
        None => Err(
            "This service has neither a log buffer (log-type = buffer) nor a logfile setting."@,
        ),
    }
}

/// Speaks for the services of one scope.
#[derive(Debug)]
pub struct DinitManager {
    scope: ServiceScope,
}

impl View for DinitManager {
    type V = ServiceScope;

    closed spec fn view(&self) -> ServiceScope {
        self.scope
    }
}

impl DinitManager {
    /// A manager for a scope. There is no connection to set up, so this never
    /// fails.
    pub fn new(scope: ServiceScope) -> (r: Result<Self, String>)
        ensures
            r matches Ok(m) && m@ == scope,
    {
        Ok(DinitManager { scope })
    }

    /// The command whose output lists the services.
    pub fn list_invocation(&self, host: &Host) -> (i: Invocation)
        ensures
            i@ == list_command(self@, host@),
    {
        let args: Vec<&str> = vec!["list"];
        assert(args.deep_view() == seq!["list"@]);
        dinitctl_query(&args, self.scope, host)
    }

    /// The links to look for before the services of a list can be told: those
    /// that exist are handed to [`DinitManager::list_services`].
    pub fn links_to_check(&self, output: &str, env: &Environment) -> (links: Vec<Vec<u8>>)
        ensures
            byte_strings(links@) == links_of_list(output@, self@, env@),
    {
        let entries = parse_list(output);
        let ghost all = listed(output@);
        let ghost f = |entry: (Seq<char>, Seq<char>)| enabling_links(self@, entry.1, env@);
        let mut links: Vec<Vec<u8>> = Vec::new();
        let mut i: usize = 0;
        proof {
            assert(all.take(0) == Seq::<(Seq<char>, Seq<char>)>::empty());
            assert(byte_strings(links@) == all.take(0).flat_map(f)) by {
                reveal_with_fuel(Seq::flatten, 1);
            }
        }
        while i < entries.len()
            invariant
                texts(entries@) == all,
                i <= entries@.len(),
                f == (|entry: (Seq<char>, Seq<char>)| enabling_links(self@, entry.1, env@)),
                byte_strings(links@) == all.take(i as int).flat_map(f),
            decreases entries@.len() - i,
        {
            let ghost before = links@;
            let mut more = enable_links(self.scope, entries[i].1, env);
            let ghost added = more@;
            links.append(&mut more);
            proof {
                assert(all[i as int] == (entries@[i as int].0@, entries@[i as int].1@));
                assert(byte_strings(links@) == byte_strings(before) + byte_strings(added));
                all.lemma_flat_map_take_append(f, i as int);
            }
            i += 1;
        }
        assert(all.take(all.len() as int) == all);
        links
    }

    /// The paths to look at for the description files of the services of a list:
    /// those that are files are handed to [`DinitManager::list_services`].
    pub fn listed_files_to_check(&self, output: &str, env: &Environment) -> (paths: Vec<String>)
        ensures
            paths.deep_view() == files_of_list(output@, self@, env@),
    {
        let entries = parse_list(output);
        let ghost all = listed(output@);
        let ghost f = |entry: (Seq<char>, Seq<char>)| candidate_paths(self@, entry.1, env@);
        let mut paths: Vec<String> = Vec::new();
        let mut i: usize = 0;
        proof {
            assert(all.take(0) == Seq::<(Seq<char>, Seq<char>)>::empty());
            assert(paths.deep_view() == all.take(0).flat_map(f)) by {
                reveal_with_fuel(Seq::flatten, 1);
            }
        }
        while i < entries.len()
            invariant
                texts(entries@) == all,
                i <= entries@.len(),
                f == (|entry: (Seq<char>, Seq<char>)| candidate_paths(self@, entry.1, env@)),
                paths.deep_view() == all.take(i as int).flat_map(f),
            decreases entries@.len() - i,
        {
            let ghost before = paths.deep_view();
            let mut more = service_file_candidates(self.scope, entries[i].1, env);
            let ghost added = more.deep_view();
            paths.append(&mut more);
            proof {
                assert(all[i as int] == (entries@[i as int].0@, entries@[i as int].1@));
                assert(paths.deep_view() == before + added);
                all.lemma_flat_map_take_append(f, i as int);
            }
            i += 1;
        }
        assert(all.take(all.len() as int) == all);
        paths
    }

    /// The services of the scope, from the outcome of the list command, from the
    /// links that exist among those to check and from the description files that
    /// are there. Details are not looked up: for the services of the system that
    /// would ask for a password once each.
    pub fn list_services(
        &self,
        listing: Result<String, String>,
        env: &Environment,
        existing: &Vec<Vec<u8>>,
        files: &Vec<String>,
    ) -> (r: Result<Vec<DinitService>, String>)
        ensures
            services_result(r) == services_of(
                text_result(listing),
                self@,
                env@,
                byte_strings(existing@),
                files.deep_view(),
            ),
    {
        let output = match listing {
            Ok(output) => output,
            Err(e) => {
                return Err(e);
            },
        };
        let entries = parse_list(output.as_str());
        let ghost all = listed_services(
            output@,
            self@,
            env@,
            byte_strings(existing@),
            files.deep_view(),
        );
        let mut services: Vec<DinitService> = Vec::new();
        let mut i: usize = 0;
        while i < entries.len()
            invariant
                texts(entries@) == listed(output@),
                all == listed_services(
                    output@,
                    self@,
                    env@,
                    byte_strings(existing@),
                    files.deep_view(),
                ),
                i <= entries@.len(),
                services.deep_view() == all.take(i as int),
            decreases entries@.len() - i,
        {
            let ghost before = services.deep_view();
            let (marker, name) = entries[i];
            assert(listed(output@)[i as int] == (marker@, name@));
            let (active_state, sub_state) = classify_states(marker);
            let unit_file_state = self.is_enabled(name, env, existing, files);
            let service = DinitService {
                name: name.to_string(),
                load_state: "loaded".to_string(),
                active_state: active_state.to_string(),
                sub_state: sub_state.to_string(),
                unit_path: String::new(),
                unit_file_state,
                pid: None,
            };
            assert(service@ == all[i as int]);
            services.push(service);
            proof {
                assert(services.deep_view() == before.push(service@));
                assert(all.take(i + 1) == all.take(i as int).push(all[i as int]));
            }
            i += 1;
        }
        assert(all.take(all.len() as int) == all);
        Ok(services)
    }

    /// Whether a service is enabled: it is when a link to it exists below the
    /// boot service. Without such a link, a service whose description file is
    /// there is neither enabled nor disabled; it is called static.
    pub fn is_enabled(
        &self,
        name: &str,
        env: &Environment,
        existing: &Vec<Vec<u8>>,
        files: &Vec<String>,
    ) -> (state: String)
        ensures
            state@ == enabled_state(
                self@,
                name@,
                env@,
                byte_strings(existing@),
                files.deep_view(),
            ),
    {
        let links = enable_links(self.scope, name, env);
        if some_exists(&links, existing) {
            "enabled".to_string()
        } else if self.find_service_file_path(name, env, files).is_some() {
            "static".to_string()
        } else {
            "disabled".to_string()
        }
    }

    /// The command for an action, or why there is none.
    pub fn control(&self, action: ServiceAction, service_name: &str, host: &Host) -> (r: Result<
        Invocation,
        String,
    >)
        ensures
            invocation_result(r) == action_command(action, service_name@, self@, host@),
            action == ServiceAction::Start ==> invocation_result(r) == change(
                seq!["start"@, service_name@],
                self@,
                host@,
            ),
            action == ServiceAction::Stop ==> invocation_result(r) == change(
                seq!["stop"@, service_name@],
                self@,
                host@,
            ),
            action == ServiceAction::Restart ==> invocation_result(r) == change(
                seq!["restart"@, service_name@],
                self@,
                host@,
            ),
            action == ServiceAction::Enable ==> invocation_result(r) == change(
                seq!["enable"@, service_name@],
                self@,
                host@,
            ),
            action == ServiceAction::Disable ==> invocation_result(r) == change(
                seq!["disable"@, service_name@],
                self@,
                host@,
            ),
    {
        match action {
            ServiceAction::Start => self.start_service(service_name, host),
            ServiceAction::Stop => self.stop_service(service_name, host),
            ServiceAction::Restart => self.restart_service(service_name, host),
            ServiceAction::Enable => self.enable_service(service_name, host),
            ServiceAction::Disable => self.disable_service(service_name, host),
        }
    }

    fn run_control(&self, verb: &str, service_name: &str, host: &Host) -> (r: Result<
        Invocation,
        String,
    >)
        ensures
            invocation_result(r) == change(seq![verb@, service_name@], self@, host@),
    {
        let args: Vec<&str> = vec![verb, service_name];
        assert(args.deep_view() == seq![verb@, service_name@]);
        dinitctl_change(&args, self.scope, host)
    }

    /// The command that starts a service, or why there is none.
    pub fn start_service(&self, service_name: &str, host: &Host) -> (r: Result<Invocation, String>)
        ensures
            invocation_result(r) == action_command(
                ServiceAction::Start,
                service_name@,
                self@,
                host@,
            ),
            invocation_result(r) == change(seq!["start"@, service_name@], self@, host@),
    {
        self.run_control("start", service_name, host)
    }

    /// The command that stops a service, or why there is none.
    pub fn stop_service(&self, service_name: &str, host: &Host) -> (r: Result<Invocation, String>)
        ensures
            invocation_result(r) == action_command(
                ServiceAction::Stop,
                service_name@,
                self@,
                host@,
            ),
            invocation_result(r) == change(seq!["stop"@, service_name@], self@, host@),
    {
        self.run_control("stop", service_name, host)
    }

    /// The command that restarts a service, or why there is none.
    pub fn restart_service(&self, service_name: &str, host: &Host) -> (r: Result<
        Invocation,
        String,
    >)
        ensures
            invocation_result(r) == action_command(
                ServiceAction::Restart,
                service_name@,
                self@,
                host@,
            ),
            invocation_result(r) == change(seq!["restart"@, service_name@], self@, host@),
    {
        self.run_control("restart", service_name, host)
    }

    /// The command that links a service to the boot service, or why there is
    /// none.
    pub fn enable_service(&self, service_name: &str, host: &Host) -> (r: Result<Invocation, String>)
        ensures
            invocation_result(r) == action_command(
                ServiceAction::Enable,
                service_name@,
                self@,
                host@,
            ),
            invocation_result(r) == change(seq!["enable"@, service_name@], self@, host@),
    {
        self.run_control("enable", service_name, host)
    }

    /// The command that unlinks a service from the boot service, or why there is
    /// none.
    pub fn disable_service(&self, service_name: &str, host: &Host) -> (r: Result<
        Invocation,
        String,
    >)
        ensures
            invocation_result(r) == action_command(
                ServiceAction::Disable,
                service_name@,
                self@,
                host@,
            ),
            invocation_result(r) == change(seq!["disable"@, service_name@], self@, host@),
    {
        self.run_control("disable", service_name, host)
    }

    /// The command whose output is the status report of a service. It never asks
    /// for more rights; for a service of the system it may be denied.
    pub fn status_invocation(&self, name: &str, dinitctl: &str) -> (i: Invocation)
        ensures
            i@ == status_command(self@, name@, dinitctl@),
    {
        let args: Vec<&str> = vec!["status", name];
        assert(args.deep_view() == seq!["status"@, name@]);
        dinitctl_unprivileged(&args, self.scope, dinitctl)
    }

    /// The paths to look at for the description file of a service: those that
    /// are files are handed to the functions below.
    pub fn service_files_to_check(&self, name: &str, env: &Environment) -> (paths: Vec<String>)
        ensures
            paths.deep_view() == candidate_paths(self@, name@, env@),
    {
        service_file_candidates(self.scope, name, env)
    }

    /// The description file of a service: the first candidate among `files`.
    pub fn find_service_file_path(&self, name: &str, env: &Environment, files: &Vec<String>) -> (
        path: Option<String>)
        ensures
            opt_string(path) == first_present(
                candidate_paths(self@, name@, env@),
                files.deep_view(),
            ),
    {
        let candidates = service_file_candidates(self.scope, name, env);
        find_present(&candidates, files)
    }

    /// The description file and the process ID of a service, from the outcome of
    /// the status command and from the candidates that are files. Without a
    /// report it still answers, with what the files show.
    pub fn service_details_unprivileged(
        &self,
        name: &str,
        status: Result<String, String>,
        env: &Environment,
        files: &Vec<String>,
    ) -> (r: Result<(String, Option<u32>), String>)
        ensures
            details_result(r) == Ok::<(Seq<char>, Option<u32>), Seq<char>>(
                service_details(self@, name@, text_result(status), env@, files.deep_view()),
            ),
    {
        let (file, pid) = match status {
            Ok(output) => parse_status(output.as_str()),
            Err(_) => (String::new(), None),
        };
        if !file.as_str().is_empty() {
            return Ok((file, pid));
        }
        match self.find_service_file_path(name, env, files) {
            Some(path) => Ok((path, pid)),
            None => Ok((String::new(), pid)),
        }
    }

    /// The log file that a description file names, with the variables in its path
    /// replaced; none if there is no description file that could be read.
    pub fn read_logfile_path(&self, description: Option<&str>, env: &Environment) -> (path: Option<
        String,
    >)
        ensures
            opt_string(path) == described_log(opt_text(description), env@),
    {
        match description {
            Some(d) => find_logfile(d, env),
            None => None,
        }
    }

    /// The last lines of a service's log, or a message that says why there are
    /// none. The log file is read as it is, without more rights.
    pub fn get_service_logs_unprivileged(&self, log: Option<LogRead>, count: u32) -> (r: Result<
        String,
        String,
    >)
        ensures
            text_result(r) == service_logs(log, count as nat),
    {
        match log {
            Some(read) => match read.data {
                Ok(data) => Ok(tail_lines(data.as_str(), count)),
                Err(e) => {
                    let mut message = "logfile ".to_string();
                    message.append(read.path.as_str());
                    message.append(": ");
                    message.append(e.as_str());
                    Err(message)
                },
            },
            None => Err(
                "This service has neither a log buffer (log-type = buffer) nor a logfile setting.".to_string(),
            ),
        }
    }
}

} // verus!
