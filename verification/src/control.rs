//! How `dinitctl` is run: with which command line, under which privilege
//! escalator, and what its outcome means.

use vstd::prelude::*;
use vstd::string::*;
use vstd::utf8::*;

use crate::dinit::ServiceScope;
use crate::environment::opt_string;
use crate::text::{same_text, trim, trimmed, Class};

verus! {

/// What the host offers for running `dinitctl`.
#[derive(Debug)]
pub struct Host {
    /// Whether the process runs as root.
    pub root: bool,
    /// The privilege escalator that the host provides, if any.
    pub escalator: Option<String>,
    /// The `dinitctl` command.
    pub dinitctl: String,
}

/// The value of a [`Host`].
pub struct HostView {
    pub root: bool,
    pub escalator: Option<Seq<char>>,
    pub dinitctl: Seq<char>,
}

impl View for Host {
    type V = HostView;

    open spec fn view(&self) -> HostView {
        HostView {
            root: self.root,
            escalator: opt_string(self.escalator),
            dinitctl: self.dinitctl@,
        }
    }
}

/// The way that a command takes to `dinitctl`, which failures are reported by.
#[derive(Debug)]
pub enum Route {
    /// `dinitctl` is run as it is.
    Direct,
    /// A query runs under an escalator.
    Escalated(String),
    /// A change runs under an escalator.
    Privileged(String),
}

/// The value of a [`Route`].
pub enum RouteView {
    Direct,
    Escalated(Seq<char>),
    Privileged(Seq<char>),
}

impl View for Route {
    type V = RouteView;

    open spec fn view(&self) -> RouteView {
        match self {
            Route::Direct => RouteView::Direct,
            Route::Escalated(tool) => RouteView::Escalated(tool@),
            Route::Privileged(tool) => RouteView::Privileged(tool@),
        }
    }
}

/// A command to run.
#[derive(Debug)]
pub struct Invocation {
    pub program: String,
    pub args: Vec<String>,
    pub route: Route,
}

/// The value of an [`Invocation`].
#[verifier::ext_equal]
pub struct InvocationView {
    pub program: Seq<char>,
    pub args: Seq<Seq<char>>,
    pub route: RouteView,
}

impl View for Invocation {
    type V = InvocationView;

    open spec fn view(&self) -> InvocationView {
        InvocationView {
            program: self.program@,
            args: self.args.deep_view(),
            route: self.route@,
        }
    }
}

/// The value of a command that may be refused.
pub open spec fn invocation_result(r: Result<Invocation, String>) -> Result<
    InvocationView,
    Seq<char>,
> {
    match r {
        Ok(i) => Ok(i@),
        Err(e) => Err(e@),
    }
}

/// The value of a text that may be refused.
pub open spec fn text_result(r: Result<String, String>) -> Result<Seq<char>, Seq<char>> {
    match r {
        Ok(t) => Ok(t@),
        Err(e) => Err(e@),
    }
}

/// The privilege escalators that are known, the most preferred first.
pub open spec fn escalators() -> Seq<Seq<char>> {
    seq!["pkexec"@, "doas"@, "sudo"@, "flatpak-spawn"@]
}

/// How each escalator is asked whether it is there.
pub open spec fn escalator_questions() -> Seq<Seq<char>> {
    seq!["--version"@, "--version"@, "--version"@, "--help"@]
}

/// A command with one argument that shows whether an escalator is there.
#[derive(Debug)]
pub struct Probe {
    pub program: &'static str,
    pub arg: &'static str,
}

/// The commands that show which escalators are there, in the order of
/// preference: an escalator is there if its command can be run at all.
pub fn escalator_probes() -> (probes: Vec<Probe>)
    ensures
        probes@.len() == escalators().len(),
        forall|i: int|
            0 <= i < probes@.len() ==> (#[trigger] probes@[i]).program@ == escalators()[i]
                && probes@[i].arg@ == escalator_questions()[i],
{
    vec![
        Probe { program: "pkexec", arg: "--version" },
        Probe { program: "doas", arg: "--version" },
        Probe { program: "sudo", arg: "--version" },
        Probe { program: "flatpak-spawn", arg: "--help" },
    ]
}

/// The most preferred escalator whose probe ran; `ran` tells it of the probes in
/// their order, and a probe that it does not reach did not run.
pub open spec fn escalator_of(ran: Seq<bool>, from: int) -> Option<Seq<char>>
    decreases escalators().len() - from,
{
    if from >= escalators().len() || from >= ran.len() {
        None
    } else if ran[from] {
        Some(escalators()[from])
    } else {
        escalator_of(ran, from + 1)
    }
}

/// The most preferred escalator whose probe ran.
pub fn find_privilege_escalator(ran: &Vec<bool>) -> (tool: Option<String>)
    ensures
        opt_string(tool) == escalator_of(ran@, 0),
{
    let probes = escalator_probes();
    let mut i: usize = 0;
    while i < probes.len() && i < ran.len()
        invariant
            probes@.len() == escalators().len(),
            forall|j: int|
                0 <= j < probes@.len() ==> (#[trigger] probes@[j]).program@ == escalators()[j],
            i <= probes@.len(),
            i <= ran@.len(),
            escalator_of(ran@, 0) == escalator_of(ran@, i as int),
        decreases probes@.len() - i,
    {
        if ran[i] {
            return Some(probes[i].program.to_string());
        }
        i += 1;
    }
    None
}

/// The arguments behind the `dinitctl` command: the scope, then what is asked.
pub open spec fn scoped(scope: ServiceScope, args: Seq<Seq<char>>) -> Seq<Seq<char>> {
    seq![scope.flag()] + args
}

/// `dinitctl` run as it is, in any scope.
pub open spec fn unprivileged(
    args: Seq<Seq<char>>,
    scope: ServiceScope,
    dinitctl: Seq<char>,
) -> InvocationView {
    InvocationView { program: dinitctl, args: scoped(scope, args), route: RouteView::Direct }
}

/// Whether an escalator asks for a password in the terminal, where a window that
/// waits for an answer hangs.
pub open spec fn prompts_in_terminal(tool: Seq<char>) -> bool {
    tool == "doas"@ || tool == "sudo"@
}

/// The arguments with which an escalator runs `dinitctl`. From inside a Flatpak
/// sandbox, `pkexec` is run on the host.
pub open spec fn escalated_args(
    tool: Seq<char>,
    args: Seq<Seq<char>>,
    scope: ServiceScope,
    dinitctl: Seq<char>,
) -> Seq<Seq<char>> {
    (if tool == "flatpak-spawn"@ {
        seq!["--host"@, "pkexec"@]
    } else {
        Seq::empty()
    }) + seq![dinitctl] + scoped(scope, args)
}

/// A query: in a scope that takes more rights it runs under the escalator, if
/// there is one that does not ask in the terminal; else it runs as it is.
pub open spec fn query(
    args: Seq<Seq<char>>,
    scope: ServiceScope,
    host: HostView,
) -> InvocationView {
    match host.escalator {
        Some(tool) if scope.elevated(host.root) && !prompts_in_terminal(tool) => InvocationView {
            program: tool,
            args: escalated_args(tool, args, scope, host.dinitctl),
            route: RouteView::Escalated(tool),
        },
        _ => unprivileged(args, scope, host.dinitctl),
    }
}

/// What is answered where an escalator is needed and none is there.
pub open spec fn no_escalator() -> Seq<char> {
    "No privilege escalation tool found (doas, sudo, pkexec, flatpak-spawn)"@
}

/// `dinitctl` under the escalator; refused if there is none.
pub open spec fn privileged(
    args: Seq<Seq<char>>,
    scope: ServiceScope,
    host: HostView,
) -> Result<InvocationView, Seq<char>> {
    match host.escalator {
        None => Err(no_escalator()),
        Some(tool) => Ok(
            InvocationView {
                program: tool,
                args: escalated_args(tool, args, scope, host.dinitctl),
                route: RouteView::Privileged(tool),
            },
        ),
    }
}

/// A change: in a scope that takes more rights it runs under the escalator, and
/// is refused if there is none; else it runs as it is.
pub open spec fn change(
    args: Seq<Seq<char>>,
    scope: ServiceScope,
    host: HostView,
) -> Result<InvocationView, Seq<char>> {
    if scope.elevated(host.root) {
        privileged(args, scope, host)
    } else {
        Ok(query(args, scope, host))
    }
}

/// Adds the option of the scope and the arguments to a command line.
fn push_scoped(line: &mut Vec<String>, scope: ServiceScope, args: &Vec<&str>)
    ensures
        final(line).deep_view() == old(line).deep_view() + scoped(scope, args.deep_view()),
{
    let ghost before = line.deep_view();
    let ghost all = args.deep_view();
    line.push(scope.dinitctl_flag().to_string());
    let mut i: usize = 0;
    assert(line.deep_view() == before + (seq![scope.flag()] + all.take(0)));
    while i < args.len()
        invariant
            all == args.deep_view(),
            i <= args@.len(),
            line.deep_view() == before + (seq![scope.flag()] + all.take(i as int)),
        decreases args@.len() - i,
    {
        let ghost now = line.deep_view();
        let arg = args[i].to_string();
        line.push(arg);
        proof {
            assert(line.deep_view() == now.push(arg@));
            assert(all[i as int] == args@[i as int]@);
            assert(before + (seq![scope.flag()] + all.take(i + 1)) == now.push(arg@));
        }
        i += 1;
    }
    assert(all.take(all.len() as int) == all);
}

/// The command that runs `dinitctl` as it is, whatever the scope. Reads for the
/// detail pane go this way, so that they never ask for a password.
pub fn dinitctl_unprivileged(args: &Vec<&str>, scope: ServiceScope, dinitctl: &str) -> (i:
    Invocation)
    ensures
        i@ == unprivileged(args.deep_view(), scope, dinitctl@),
{
    let mut line: Vec<String> = Vec::new();
    push_scoped(&mut line, scope, args);
    let i = Invocation { program: dinitctl.to_string(), args: line, route: Route::Direct };
    assert(i@.args == scoped(scope, args.deep_view()));
    i
}

/// The arguments with which an escalator runs `dinitctl`.
fn escalated_line(tool: &str, args: &Vec<&str>, scope: ServiceScope, dinitctl: &String) -> (line:
    Vec<String>)
    ensures
        line.deep_view() == escalated_args(tool@, args.deep_view(), scope, dinitctl@),
{
    let mut line: Vec<String> = Vec::new();
    if same_text(tool, "flatpak-spawn") {
        line.push("--host".to_string());
        line.push("pkexec".to_string());
        assert(line.deep_view() == seq!["--host"@, "pkexec"@]);
    } else {
        assert(line.deep_view() == Seq::<Seq<char>>::empty());
    }
    let ghost before = line.deep_view();
    line.push(dinitctl.clone());
    assert(line.deep_view() == before + seq![dinitctl@]);
    push_scoped(&mut line, scope, args);
    line
}

/// The command for a query: it runs under the escalator in a scope that takes
/// more rights, if there is one that does not ask in the terminal.
pub fn dinitctl_query(args: &Vec<&str>, scope: ServiceScope, host: &Host) -> (i: Invocation)
    ensures
        i@ == query(args.deep_view(), scope, host@),
{
    if scope.requires_elevation(host.root) {
        if let Some(tool) = &host.escalator {
            if same_text(tool.as_str(), "doas") || same_text(tool.as_str(), "sudo") {
                return dinitctl_unprivileged(args, scope, host.dinitctl.as_str());
            }
            return Invocation {
                program: tool.clone(),
                args: escalated_line(tool.as_str(), args, scope, &host.dinitctl),
                route: Route::Escalated(tool.clone()),
            };
        }
    }
    dinitctl_unprivileged(args, scope, host.dinitctl.as_str())
}

/// The command that runs `dinitctl` under the escalator.
pub fn dinitctl_privileged(args: &Vec<&str>, scope: ServiceScope, host: &Host) -> (r: Result<
    Invocation,
    String,
>)
    ensures
        invocation_result(r) == privileged(args.deep_view(), scope, host@),
{
    match &host.escalator {
        None => Err(
            "No privilege escalation tool found (doas, sudo, pkexec, flatpak-spawn)".to_string(),
        ),
        Some(tool) => Ok(
            Invocation {
                program: tool.clone(),
                args: escalated_line(tool.as_str(), args, scope, &host.dinitctl),
                route: Route::Privileged(tool.clone()),
            },
        ),
    }
}

/// The command for a change: it runs under the escalator in a scope that takes
/// more rights, and is refused there if there is none.
pub fn dinitctl_change(args: &Vec<&str>, scope: ServiceScope, host: &Host) -> (r: Result<
    Invocation,
    String,
>)
    ensures
        invocation_result(r) == change(args.deep_view(), scope, host@),
{
    if scope.requires_elevation(host.root) {
        dinitctl_privileged(args, scope, host)
    } else {
        Ok(dinitctl_query(args, scope, host))
    }
}

/// What a process left behind when it ended.
#[derive(Debug)]
pub struct ProcessOutput {
    pub success: bool,
    pub stdout: Vec<u8>,
    pub stderr: Vec<u8>,
}

/// What `String::from_utf8_lossy` makes of bytes.
pub uninterp spec fn lossy_text(bytes: Seq<u8>) -> Seq<char>;

/// Calls `String::from_utf8_lossy`. Its result is a function of the bytes, and
/// bytes that are valid UTF-8 give the text that they encode. How other bytes
/// are replaced is not said.
#[verifier::external_body]
fn string_from_utf8_lossy(bytes: &Vec<u8>) -> (text: String)
    ensures
        text@ == lossy_text(bytes@),
        valid_utf8(bytes@) ==> encode_utf8(text@) == bytes@,
{
    String::from_utf8_lossy(bytes).into_owned()
}

/// The message for a command that could not be run at all.
pub open spec fn cannot_execute(route: RouteView, error: Seq<char>) -> Seq<char> {
    "Failed to execute "@ + (match route {
        RouteView::Direct => "dinitctl"@,
        RouteView::Escalated(tool) => tool,
        RouteView::Privileged(tool) => tool,
    }) + ": "@ + error
}

/// The message for a command that ran and failed.
pub open spec fn has_failed(route: RouteView, stderr: Seq<char>) -> Seq<char> {
    (match route {
        RouteView::Privileged(tool) => "dinitctl failed via "@ + tool + ": "@,
        _ => "dinitctl failed: "@,
    }) + trim(stderr, Class::Space)
}

/// What a command yields that ended with these texts: its output, or a message.
pub open spec fn reported(
    route: RouteView,
    success: bool,
    stdout: Seq<char>,
    stderr: Seq<char>,
) -> Result<Seq<char>, Seq<char>> {
    if success {
        Ok(stdout)
    } else {
        Err(has_failed(route, stderr))
    }
}

/// What a command yields: its output, or a message that says why there is none.
pub open spec fn concluded(route: RouteView, ran: Result<ProcessOutput, String>) -> Result<
    Seq<char>,
    Seq<char>,
> {
    match ran {
        Err(e) => Err(cannot_execute(route, e@)),
        Ok(out) => reported(
            route,
            out.success,
            lossy_text(out.stdout@),
            lossy_text(out.stderr@),
        ),
    }
}

impl Invocation {
    /// What the command yields that ended with these texts: its output if it
    /// succeeded, else a message with what it wrote to its error stream.
    pub fn report(&self, success: bool, stdout: String, stderr: &str) -> (r: Result<String, String>)
        ensures
            text_result(r) == reported(self.route@, success, stdout@, stderr@),
    {
        if success {
            return Ok(stdout);
        }
        let mut message: String = String::new();
        match &self.route {
            Route::Privileged(tool) => {
                message.append("dinitctl failed via ");
                message.append(tool.as_str());
                message.append(": ");
            },
            _ => {
                message.append("dinitctl failed: ");
            },
        }
        message.append(trimmed(stderr, Class::Space));
        assert(message@ == has_failed(self.route@, stderr@));
        Err(message)
    }

    /// What the command yields that was run, or that could not be run for the
    /// reason given.
    pub fn conclude(&self, ran: Result<ProcessOutput, String>) -> (r: Result<String, String>)
        ensures
            text_result(r) == concluded(self.route@, ran),
            ran matches Ok(out) ==> valid_utf8(out.stdout@) && valid_utf8(out.stderr@)
                ==> text_result(r) == reported(
                self.route@,
                out.success,
                decode_utf8(out.stdout@),
                decode_utf8(out.stderr@),
            ),
    {
        broadcast use encode_utf8_decode_utf8;

        match ran {
            Err(error) => {
                let mut message = "Failed to execute ".to_string();
                match &self.route {
                    Route::Direct => message.append("dinitctl"),
                    Route::Escalated(tool) => message.append(tool.as_str()),
                    Route::Privileged(tool) => message.append(tool.as_str()),
                }
                message.append(": ");
                message.append(error.as_str());
                Err(message)
            },
            Ok(out) => {
                let stdout = string_from_utf8_lossy(&out.stdout);
                let stderr = string_from_utf8_lossy(&out.stderr);
                self.report(out.success, stdout, stderr.as_str())
            },
        }
    }
}

} // verus!
