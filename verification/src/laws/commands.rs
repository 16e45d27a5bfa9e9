//! Which command lines run, word by word, and what their outcomes mean.

use vstd::prelude::*;

use crate::control::{
    change, concluded, escalator_of, escalator_questions, escalators, lossy_text, privileged,
    query, reported, unprivileged, HostView, InvocationView, ProcessOutput, RouteView,
};
use crate::dinit::{action_command, list_command, status_command, ServiceAction, ServiceScope};
use crate::text::{trim, Class};

verus! {

/// For the user's services `dinitctl` is run with `-u`, whoever asks and whatever
/// the host offers: nothing comes before it, and nothing is refused.
pub proof fn law_user_commands(args: Seq<Seq<char>>, host: HostView)
    ensures
        ({
            let plain = InvocationView {
                program: host.dinitctl,
                args: seq!["-u"@] + args,
                route: RouteView::Direct,
            };
            &&& unprivileged(args, ServiceScope::User, host.dinitctl) == plain
            &&& query(args, ServiceScope::User, host) == plain
            &&& change(args, ServiceScope::User, host) == Ok::<InvocationView, Seq<char>>(plain)
        }),
{
}

/// For the system's services `dinitctl` is run with `-s`; for root nothing comes
/// before it, and nothing is refused.
pub proof fn law_root_commands(args: Seq<Seq<char>>, host: HostView)
    ensures
        ({
            let plain = InvocationView {
                program: host.dinitctl,
                args: seq!["-s"@] + args,
                route: RouteView::Direct,
            };
            &&& unprivileged(args, ServiceScope::System, host.dinitctl) == plain
            &&& host.root ==> query(args, ServiceScope::System, host) == plain
            &&& host.root ==> change(args, ServiceScope::System, host) == Ok::<
                InvocationView,
                Seq<char>,
            >(plain)
        }),
{
}

/// Without an escalator, another user than root queries the system's services as
/// it can, and every change to them is refused with a message.
pub proof fn law_commands_without_escalator(args: Seq<Seq<char>>, host: HostView)
    requires
        !host.root,
        host.escalator is None,
    ensures
        query(args, ServiceScope::System, host) == (InvocationView {
            program: host.dinitctl,
            args: seq!["-s"@] + args,
            route: RouteView::Direct,
        }),
        change(args, ServiceScope::System, host) == Err::<InvocationView, Seq<char>>(
            "No privilege escalation tool found (doas, sudo, pkexec, flatpak-spawn)"@,
        ),
{
}

/// With an escalator other than `flatpak-spawn`, another user than root changes
/// the system's services through it: the escalator runs `dinitctl` and gets its
/// arguments as they are. So do queries, but under `doas` and `sudo` they run
/// without it.
pub proof fn law_commands_with_escalator(args: Seq<Seq<char>>, host: HostView, tool: Seq<char>)
    requires
        !host.root,
        host.escalator == Some(tool),
        tool != "flatpak-spawn"@,
    ensures
        change(args, ServiceScope::System, host) == Ok::<InvocationView, Seq<char>>(
            InvocationView {
                program: tool,
                args: seq![host.dinitctl, "-s"@] + args,
                route: RouteView::Privileged(tool),
            },
        ),
        tool != "doas"@ && tool != "sudo"@ ==> query(args, ServiceScope::System, host)
            == (InvocationView {
            program: tool,
            args: seq![host.dinitctl, "-s"@] + args,
            route: RouteView::Escalated(tool),
        }),
        tool == "doas"@ || tool == "sudo"@ ==> query(args, ServiceScope::System, host)
            == (InvocationView {
            program: host.dinitctl,
            args: seq!["-s"@] + args,
            route: RouteView::Direct,
        }),
{
    let line = seq![host.dinitctl, "-s"@] + args;
    assert(Seq::<Seq<char>>::empty() + seq![host.dinitctl] + (seq!["-s"@] + args) == line);
}

/// From inside a Flatpak sandbox, both go through `pkexec` on the host.
pub proof fn law_commands_in_a_sandbox(args: Seq<Seq<char>>, host: HostView)
    requires
        !host.root,
        host.escalator == Some("flatpak-spawn"@),
    ensures
        change(args, ServiceScope::System, host) == Ok::<InvocationView, Seq<char>>(
            InvocationView {
                program: "flatpak-spawn"@,
                args: seq!["--host"@, "pkexec"@, host.dinitctl, "-s"@] + args,
                route: RouteView::Privileged("flatpak-spawn"@),
            },
        ),
        query(args, ServiceScope::System, host) == (InvocationView {
            program: "flatpak-spawn"@,
            args: seq!["--host"@, "pkexec"@, host.dinitctl, "-s"@] + args,
            route: RouteView::Escalated("flatpak-spawn"@),
        }),
{
    reveal_strlit("flatpak-spawn");
    reveal_strlit("doas");
    reveal_strlit("sudo");
    assert("flatpak-spawn"@.len() == 13 && "doas"@.len() == 4 && "sudo"@.len() == 4);
    let line = seq!["--host"@, "pkexec"@, host.dinitctl, "-s"@] + args;
    assert(seq!["--host"@, "pkexec"@] + seq![host.dinitctl] + (seq!["-s"@] + args) == line);
}

/// A command under an escalator names the scope that it is for, and is refused
/// just when there is no escalator, in either scope and for root too.
pub proof fn law_escalated_commands(args: Seq<Seq<char>>, scope: ServiceScope, host: HostView)
    ensures
        host.escalator is None <==> privileged(args, scope, host) is Err,
        privileged(args, scope, host) matches Ok(i) ==> host.escalator == Some(i.program),
        privileged(args, scope, host) == privileged(args, scope, (HostView { root: true, ..host })),
        privileged(args, scope, host) == privileged(
            args,
            scope,
            (HostView { root: false, ..host }),
        ),
        privileged(args, ServiceScope::System, host) == change(
            args,
            ServiceScope::System,
            (HostView { root: false, ..host }),
        ),
        privileged(args, ServiceScope::User, host) matches Ok(i) ==> (privileged(
            args,
            ServiceScope::System,
            host,
        ) matches Ok(j) && i.program == j.program && i.route == j.route && i.args.len()
            == j.args.len() && i.args == j.args.update(j.args.len() - args.len() - 1, "-u"@)),
{
    match (
        privileged(args, ServiceScope::User, host),
        privileged(args, ServiceScope::System, host),
    ) {
        (Ok(i), Ok(j)) => {
            assert(i.args =~= j.args.update(j.args.len() - args.len() - 1, "-u"@));
        },
        _ => {},
    }
}

/// What runs for an action is the `dinitctl` command of its name, with the name
/// of the service and nothing more.
pub proof fn law_each_action_has_its_word(name: Seq<char>, scope: ServiceScope, host: HostView)
    ensures
        action_command(ServiceAction::Start, name, scope, host) == change(
            seq!["start"@, name],
            scope,
            host,
        ),
        action_command(ServiceAction::Stop, name, scope, host) == change(
            seq!["stop"@, name],
            scope,
            host,
        ),
        action_command(ServiceAction::Restart, name, scope, host) == change(
            seq!["restart"@, name],
            scope,
            host,
        ),
        action_command(ServiceAction::Enable, name, scope, host) == change(
            seq!["enable"@, name],
            scope,
            host,
        ),
        action_command(ServiceAction::Disable, name, scope, host) == change(
            seq!["disable"@, name],
            scope,
            host,
        ),
{
}

/// The command line of an action ends with its word and the service's name; what
/// comes before them does not depend on either.
pub proof fn law_action_lines_end_with_word_and_name(
    action: ServiceAction,
    name: Seq<char>,
    scope: ServiceScope,
    host: HostView,
)
    ensures
        action_command(action, name, scope, host) matches Ok(i) ==> ({
            let n = i.args.len();
            &&& n >= 3
            &&& i.args[n - 1] == name
            &&& action == ServiceAction::Start ==> i.args[n - 2] == "start"@
            &&& action == ServiceAction::Stop ==> i.args[n - 2] == "stop"@
            &&& action == ServiceAction::Restart ==> i.args[n - 2] == "restart"@
            &&& action == ServiceAction::Enable ==> i.args[n - 2] == "enable"@
            &&& action == ServiceAction::Disable ==> i.args[n - 2] == "disable"@
            &&& scope == ServiceScope::System ==> i.args[n - 3] == "-s"@
            &&& scope == ServiceScope::User ==> i.args[n - 3] == "-u"@
        }),
{
}

/// Two actions never run the same command, be it for the same service.
pub proof fn law_actions_differ(
    a: ServiceAction,
    b: ServiceAction,
    name: Seq<char>,
    scope: ServiceScope,
    host: HostView,
)
    requires
        a != b,
        action_command(a, name, scope, host) is Ok,
    ensures
        action_command(a, name, scope, host) != action_command(b, name, scope, host),
{
    law_action_lines_end_with_word_and_name(a, name, scope, host);
    law_action_lines_end_with_word_and_name(b, name, scope, host);
    reveal_strlit("start");
    reveal_strlit("stop");
    reveal_strlit("restart");
    reveal_strlit("enable");
    reveal_strlit("disable");
    assert("start"@.len() == 5 && "stop"@.len() == 4);
    assert("restart"@.len() == 7 && "restart"@[0] == 'r');
    assert("enable"@.len() == 6);
    assert("disable"@.len() == 7 && "disable"@[0] == 'd');
}

/// The services are listed by `dinitctl list`, and a status is read by
/// `dinitctl status` with the service's name. The second is never escalated.
pub proof fn law_reading_commands(scope: ServiceScope, name: Seq<char>, host: HostView)
    ensures
        list_command(scope, host) == query(seq!["list"@], scope, host),
        list_command(scope, host).args.last() == "list"@,
        status_command(scope, name, host.dinitctl).program == host.dinitctl,
        status_command(ServiceScope::System, name, host.dinitctl).args == seq![
            "-s"@,
            "status"@,
            name,
        ],
        status_command(ServiceScope::User, name, host.dinitctl).args == seq![
            "-u"@,
            "status"@,
            name,
        ],
        status_command(scope, name, host.dinitctl).route is Direct,
{
    assert(seq!["-s"@] + seq!["status"@, name] == seq!["-s"@, "status"@, name]);
    assert(seq!["-u"@] + seq!["status"@, name] == seq!["-u"@, "status"@, name]);
}

/// `pkexec` is preferred, then `doas`, then `sudo`, then `flatpak-spawn`: what is
/// found is the first of these whose probe ran, and none if none ran.
pub proof fn law_escalators_by_preference(ran: Seq<bool>)
    ensures
        escalator_of(ran, 0) == (if ran.len() > 0 && ran[0] {
            Some("pkexec"@)
        } else if ran.len() > 1 && ran[1] {
            Some("doas"@)
        } else if ran.len() > 2 && ran[2] {
            Some("sudo"@)
        } else if ran.len() > 3 && ran[3] {
            Some("flatpak-spawn"@)
        } else {
            None
        }),
{
    reveal_with_fuel(escalator_of, 5);
}

/// There are four escalators. Each is probed by asking for its version, but
/// `flatpak-spawn`, which is asked for help.
pub proof fn law_probes()
    ensures
        escalators() == seq!["pkexec"@, "doas"@, "sudo"@, "flatpak-spawn"@],
        escalator_questions() == seq!["--version"@, "--version"@, "--version"@, "--help"@],
{
}

/// A command that could not be run is reported by the program that could not be
/// run, `dinitctl` or the escalator, and by the reason.
pub proof fn law_unrunnable_commands_are_reported(error: String, tool: Seq<char>)
    ensures
        concluded(RouteView::Direct, Err(error)) == Err::<Seq<char>, Seq<char>>(
            "Failed to execute "@ + "dinitctl"@ + ": "@ + error@,
        ),
        concluded(RouteView::Escalated(tool), Err(error)) == Err::<Seq<char>, Seq<char>>(
            "Failed to execute "@ + tool + ": "@ + error@,
        ),
        concluded(RouteView::Privileged(tool), Err(error)) == Err::<Seq<char>, Seq<char>>(
            "Failed to execute "@ + tool + ": "@ + error@,
        ),
{
}

/// A command that succeeded yields what it wrote, whatever its route and its error
/// stream.
pub proof fn law_success_yields_the_output(
    route: RouteView,
    stdout: Seq<char>,
    stderr: Seq<char>,
)
    ensures
        reported(route, true, stdout, stderr) == Ok::<Seq<char>, Seq<char>>(stdout),
{
}

/// A command that failed is reported by its error stream without the white space
/// at its ends, whatever it wrote else. A change names its escalator too.
pub proof fn law_failure_is_reported(tool: Seq<char>, stdout: Seq<char>, stderr: Seq<char>)
    ensures
        reported(RouteView::Direct, false, stdout, stderr) == Err::<Seq<char>, Seq<char>>(
            "dinitctl failed: "@ + trim(stderr, Class::Space),
        ),
        reported(RouteView::Escalated(tool), false, stdout, stderr) == Err::<Seq<char>, Seq<char>>(
            "dinitctl failed: "@ + trim(stderr, Class::Space),
        ),
        reported(RouteView::Privileged(tool), false, stdout, stderr) == Err::<Seq<char>, Seq<char>>(
            "dinitctl failed via "@ + tool + ": "@ + trim(stderr, Class::Space),
        ),
{
}

/// What a command yields that ended is told by whether it succeeded and by its two
/// streams, read as text.
pub proof fn law_ended_commands_are_read_as_text(route: RouteView, out: ProcessOutput)
    ensures
        concluded(route, Ok(out)) == reported(
            route,
            out.success,
            lossy_text(out.stdout@),
            lossy_text(out.stderr@),
        ),
        concluded(route, Ok(out)) is Ok <==> out.success,
{
}

} // verus!
