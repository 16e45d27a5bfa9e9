//! What holds of the library as a whole.

pub mod commands;
pub mod details;
pub mod listing;
pub mod messages;
pub mod places;
pub mod text;
pub mod views;

use vstd::prelude::*;
use vstd::string::*;
use vstd::utf8::*;

use crate::control::{
    change, escalator_of, escalators, no_escalator, query, scoped, unprivileged,
    HostView, InvocationView, RouteView,
};
use crate::details::{logfile_setting, name_ends, with_variable, with_variables};
use crate::dinit::{
    enabled_state, files_of_list, links_of_list, listed_services, ServiceScope, ServiceView,
};
use crate::environment::{as_text, EnvironmentView};
use crate::listing::{list_entry, listed, marker_states, named_entry, without_lf};
use crate::message::{ContextPage, MessageView};
use crate::paths::{any_exists, candidate_paths, enabling_links, first_present};
use crate::roster::{has_name, lemma_place, lemma_place_is, lookup, place, put, refreshed};
use crate::roster_laws::{
    distinct_names, law_put_keeps_the_names, law_refresh_keeps_names_distinct,
    law_refresh_takes_over_the_names, names,
};
use crate::text::{
    after_prefix, joined, last_of, lemma_run_len, lemma_run_len_is, lines, replaced, trim,
    trim_front, white_space, Class,
};
use crate::update::{list_page, step, AppView, Page, TaskView, REFRESH_INTERVAL};

verus! {

proof fn lemma_encode_concat(a: Seq<char>, b: Seq<char>)
    ensures
        encode_utf8(a + b) == encode_utf8(a) + encode_utf8(b),
    decreases a.len(),
{
    if a.len() == 0 {
        assert(a + b == b);
        assert(encode_utf8(a) + encode_utf8(b) == encode_utf8(b));
    } else {
        lemma_encode_concat(a.drop_first(), b);
        assert((a + b).drop_first() == a.drop_first() + b);
    }
}

/// A line of the list is read back: whatever nine bytes the marker has, brackets
/// among them, and whatever remarks follow the name, the marker and the name come
/// out.
pub proof fn law_list_line_is_read_back(marker: Seq<char>, name: Seq<char>, remarks: Seq<char>)
    requires
        encode_utf8(marker).len() == 9,
        encode_utf8(marker)[0] == 91,
        forall|i: int| 0 <= i < name.len() ==> !white_space(#[trigger] name[i]),
        remarks.len() > 0 ==> white_space(remarks[0]),
    ensures
        list_entry(marker + seq![']', ' '] + name + remarks) == Some((marker, name)),
{
    broadcast use encode_utf8_decode_utf8;

    let frame = seq![']', ' '];
    let line = marker + frame + name + remarks;
    let rest = if remarks.len() > 0 && remarks.last() == '\n' {
        remarks.drop_last()
    } else {
        remarks
    };
    let tail = name + rest;
    assert(without_lf(line) == marker + frame + tail) by {
        if remarks.len() > 0 {
            assert(line.last() == remarks.last());
            assert(line.drop_last() == marker + frame + name + remarks.drop_last());
        } else if name.len() > 0 {
            assert(line.last() == name[name.len() - 1]);
        } else {
            assert(line.last() == ' ');
        }
    }
    lemma_encode_concat(marker + frame, tail);
    lemma_encode_concat(marker, frame);
    is_ascii_chars_encode_utf8(frame);
    assert(encode_utf8(frame)[0] == frame[0] as u8);
    assert(encode_utf8(frame)[1] == frame[1] as u8);
    let bytes = encode_utf8(without_lf(line));
    assert(bytes.subrange(0, 9) == encode_utf8(marker));
    assert(bytes.subrange(11, bytes.len() as int) == encode_utf8(tail));
    assert(rest.len() > 0 ==> rest[0] == remarks[0]);
    assert forall|i: int| 0 <= i < name.len() implies Class::Word.holds(#[trigger] tail[i]) by {
        assert(tail[i] == name[i]);
    }
    lemma_run_len_is(tail, Class::Word, name.len());
    assert(tail.take(name.len() as int) == name);
}

/// Every service of a list has a name, and no name has a space in it.
pub proof fn law_listed_names_are_words(output: Seq<char>, i: int)
    requires
        0 <= i < listed(output).len(),
    ensures
        listed(output)[i].1.len() > 0,
        forall|j: int|
            0 <= j < listed(output)[i].1.len() ==> !white_space(#[trigger] listed(output)[i].1[j]),
{
    let f = |line: Seq<char>| named_entry(line);
    let e = listed(output)[i];
    assert(listed(output).contains(e));
    lines(output).lemma_filter_map_contains(f, e);
    let line = choose|line: Seq<char>| #[trigger]
        lines(output).contains(line) && f(line) == Some(e);
    assert(named_entry(line) == Some(e));
    let bytes = encode_utf8(without_lf(line));
    lemma_run_len(decode_utf8(bytes.subrange(11, bytes.len() as int)), Class::Word);
}

/// A marker, whatever it holds, says one of five things.
pub proof fn law_five_states(marker: Seq<u8>)
    ensures
        ({
            let s = marker_states(marker);
            ||| s == ("activating"@, "start"@)
            ||| s == ("deactivating"@, "stop"@)
            ||| s == ("failed"@, "failed"@)
            ||| s == ("active"@, "running"@)
            ||| s == ("inactive"@, "dead"@)
        }),
{
}

/// The services of a list are as many as its entries, in the same order. Each is
/// loaded, and is enabled, static or disabled; its details are not looked up.
pub proof fn law_listed_services_are_bare(
    output: Seq<char>,
    scope: ServiceScope,
    env: EnvironmentView,
    existing: Seq<Seq<u8>>,
    files: Seq<Seq<char>>,
    i: int,
)
    requires
        0 <= i < listed(output).len(),
    ensures
        ({
            let services = listed_services(output, scope, env, existing, files);
            &&& services.len() == listed(output).len()
            &&& services[i].name == listed(output)[i].1
            &&& services[i].load_state == "loaded"@
            &&& services[i].unit_path == Seq::<char>::empty()
            &&& services[i].pid is None
            &&& services[i].unit_file_state == "enabled"@ || services[i].unit_file_state
                == "static"@ || services[i].unit_file_state == "disabled"@
        }),
{
}

/// A service that no link enables but whose description file is there is neither
/// enabled nor disabled.
pub proof fn law_unlinked_services_are_static(
    scope: ServiceScope,
    name: Seq<char>,
    env: EnvironmentView,
    existing: Seq<Seq<u8>>,
    files: Seq<Seq<char>>,
    i: int,
)
    requires
        !any_exists(enabling_links(scope, name, env), existing),
        0 <= i < candidate_paths(scope, name, env).len(),
        files.contains(candidate_paths(scope, name, env)[i]),
    ensures
        enabled_state(scope, name, env, existing, files) == "static"@,
        enabled_state(scope, name, env, existing, files) != "enabled"@,
        enabled_state(scope, name, env, existing, files) != "disabled"@,
{
    reveal_strlit("enabled");
    reveal_strlit("static");
    reveal_strlit("disabled");
    law_first_candidate_wins(candidate_paths(scope, name, env), files);
    assert("static"@.len() == 6 && "enabled"@.len() == 7 && "disabled"@.len() == 8);
}

/// What is to be checked is enough: if of the links and of the files to check
/// exactly those on the disk are reported, then each listed service is shown as
/// enabled just when a link to it is on the disk, and else as static just when a
/// description file of it is.
pub proof fn law_checked_paths_tell_the_state(
    output: Seq<char>,
    scope: ServiceScope,
    env: EnvironmentView,
    existing: Seq<Seq<u8>>,
    files: Seq<Seq<char>>,
    linked: spec_fn(Seq<u8>) -> bool,
    described: spec_fn(Seq<char>) -> bool,
    i: int,
)
    requires
        0 <= i < listed(output).len(),
        forall|k: int|
            0 <= k < links_of_list(output, scope, env).len() ==> (existing.contains(
                #[trigger] links_of_list(output, scope, env)[k],
            ) <==> linked(links_of_list(output, scope, env)[k])),
        forall|k: int|
            0 <= k < files_of_list(output, scope, env).len() ==> (files.contains(
                #[trigger] files_of_list(output, scope, env)[k],
            ) <==> described(files_of_list(output, scope, env)[k])),
    ensures
        ({
            let links = enabling_links(scope, listed(output)[i].1, env);
            let paths = candidate_paths(scope, listed(output)[i].1, env);
            listed_services(output, scope, env, existing, files)[i].unit_file_state == (if exists|
                k: int,
            |
                0 <= k < links.len() && linked(#[trigger] links[k]) {
                "enabled"@
            } else if exists|k: int| 0 <= k < paths.len() && described(#[trigger] paths[k]) {
                "static"@
            } else {
                "disabled"@
            })
        }),
{
    let entries = listed(output);
    let name = entries[i].1;
    let links = enabling_links(scope, name, env);
    let all_links = links_of_list(output, scope, env);
    let f = |entry: (Seq<char>, Seq<char>)| enabling_links(scope, entry.1, env);
    assert forall|k: int| 0 <= k < links.len() implies (existing.contains(#[trigger] links[k])
        <==> linked(links[k])) by {
        let j = lemma_flat_map_holds(entries, f, i, k);
        assert(all_links[j] == links[k]);
    }
    if exists|k: int| 0 <= k < links.len() && linked(#[trigger] links[k]) {
        let k = choose|k: int| 0 <= k < links.len() && linked(#[trigger] links[k]);
        assert(existing.contains(links[k]));
        assert(any_exists(links, existing));
    }
    if any_exists(links, existing) {
        let k = choose|k: int| 0 <= k < links.len() && existing.contains(#[trigger] links[k]);
        assert(linked(links[k]));
    }
    let paths = candidate_paths(scope, name, env);
    let all_paths = files_of_list(output, scope, env);
    let g = |entry: (Seq<char>, Seq<char>)| candidate_paths(scope, entry.1, env);
    assert forall|k: int| 0 <= k < paths.len() implies (files.contains(#[trigger] paths[k])
        <==> described(paths[k])) by {
        let j = lemma_flat_map_holds(entries, g, i, k);
        assert(all_paths[j] == paths[k]);
    }
    law_first_candidate_wins(paths, files);
}

/// What a function yields for an entry stands in what it yields for all of them.
proof fn lemma_flat_map_holds<A, B>(s: Seq<A>, f: spec_fn(A) -> Seq<B>, i: int, k: int) -> (j: int)
    requires
        0 <= i < s.len(),
        0 <= k < f(s[i]).len(),
    ensures
        0 <= j < s.flat_map(f).len(),
        s.flat_map(f)[j] == f(s[i])[k],
    decreases s.len(),
{
    let n = s.len() - 1;
    s.lemma_flat_map_take_append(f, n);
    assert(s.take(n + 1) == s);
    if i == n {
        s.take(n).flat_map(f).len() + k
    } else {
        assert(s.take(n)[i] == s[i]);
        lemma_flat_map_holds(s.take(n), f, i, k)
    }
}

/// In the user's scope, and for root in any scope, `dinitctl` is always run as it
/// is: nothing is escalated, whatever the host offers, and nothing is refused.
pub proof fn law_no_escalation_without_need(
    args: Seq<Seq<char>>,
    scope: ServiceScope,
    host: HostView,
)
    requires
        scope == ServiceScope::User || host.root,
    ensures
        query(args, scope, host) == unprivileged(args, scope, host.dinitctl),
        change(args, scope, host) == Ok::<InvocationView, Seq<char>>(
            unprivileged(args, scope, host.dinitctl),
        ),
{
}

/// A change to the system's services by another user than root is refused just
/// when the host has no escalator; else the escalator is what runs.
pub proof fn law_system_changes_are_escalated(args: Seq<Seq<char>>, host: HostView)
    requires
        !host.root,
    ensures
        change(args, ServiceScope::System, host) is Err <==> host.escalator is None,
        change(args, ServiceScope::System, host) matches Err(e) ==> e == no_escalator(),
        change(args, ServiceScope::System, host) matches Ok(i) ==> Some(i.program)
            == host.escalator && i.route == RouteView::Privileged(i.program),
{
}

/// A query never asks for a password in the terminal: it runs as it is where the
/// escalator would, and else under none but the host's own.
pub proof fn law_queries_never_ask_in_the_terminal(
    args: Seq<Seq<char>>,
    scope: ServiceScope,
    host: HostView,
)
    ensures
        host.escalator == Some("doas"@) || host.escalator == Some("sudo"@) ==> query(
            args,
            scope,
            host,
        ) == unprivileged(args, scope, host.dinitctl),
        query(args, scope, host).route matches RouteView::Escalated(tool) ==> tool != "doas"@
            && tool != "sudo"@ && host.escalator == Some(tool) && query(args, scope, host).program
            == tool,
        !(query(args, scope, host).route is Privileged),
{
}

/// Reads of details never escalate: in every scope the command is `dinitctl`
/// itself, with the scope's option and the arguments and nothing else.
pub proof fn law_detail_reads_never_escalate(
    args: Seq<Seq<char>>,
    scope: ServiceScope,
    dinitctl: Seq<char>,
)
    ensures
        unprivileged(args, scope, dinitctl).program == dinitctl,
        unprivileged(args, scope, dinitctl).route is Direct,
        unprivileged(args, scope, dinitctl).args == seq![scope.flag()] + args,
{
}

/// A query that is escalated gets the same rights as a change: it is run by the
/// same program with the same arguments.
pub proof fn law_escalated_queries_run_as_changes_do(
    args: Seq<Seq<char>>,
    scope: ServiceScope,
    host: HostView,
)
    ensures
        query(args, scope, host).route is Escalated ==> (change(args, scope, host) matches Ok(c)
            && c.program == query(args, scope, host).program && c.args == query(
            args,
            scope,
            host,
        ).args),
{
}

/// From inside a Flatpak sandbox, queries and changes that take more rights are
/// run by `pkexec` on the host.
pub proof fn law_sandbox_is_left_through_the_host(
    args: Seq<Seq<char>>,
    scope: ServiceScope,
    host: HostView,
)
    requires
        scope.elevated(host.root),
        host.escalator == Some("flatpak-spawn"@),
    ensures
        query(args, scope, host).program == "flatpak-spawn"@,
        query(args, scope, host).args == seq!["--host"@, "pkexec"@, host.dinitctl] + scoped(
            scope,
            args,
        ),
        change(args, scope, host) matches Ok(c) && c.program == "flatpak-spawn"@ && c.args == seq![
            "--host"@,
            "pkexec"@,
            host.dinitctl,
        ] + scoped(scope, args),
{
    reveal_strlit("flatpak-spawn");
    reveal_strlit("doas");
    reveal_strlit("sudo");
    assert("flatpak-spawn"@.len() == 13 && "doas"@.len() == 4 && "sudo"@.len() == 4);
}

/// However `dinitctl` is run, its command line ends with the scope's option and
/// the arguments; and what comes before, or the program, is the `dinitctl`
/// command.
pub proof fn law_every_command_names_its_scope(
    args: Seq<Seq<char>>,
    scope: ServiceScope,
    host: HostView,
)
    ensures
        scoped(scope, args).is_suffix_of(query(args, scope, host).args),
        query(args, scope, host).program == host.dinitctl || query(
            args,
            scope,
            host,
        ).args.contains(host.dinitctl),
        change(args, scope, host) matches Ok(i) ==> scoped(scope, args).is_suffix_of(i.args),
        change(args, scope, host) matches Ok(i) ==> i.program == host.dinitctl
            || i.args.contains(host.dinitctl),
{
    let tail = scoped(scope, args);
    assert(tail.is_suffix_of(tail)) by {
        assert(tail.subrange(0, tail.len() as int) == tail);
    }
    let q = query(args, scope, host).args;
    assert(q.subrange(q.len() - tail.len(), q.len() as int) == tail);
    if query(args, scope, host).route is Escalated {
        assert(q[q.len() - tail.len() - 1] == host.dinitctl);
    }
    match change(args, scope, host) {
        Ok(i) => {
            assert(i.args.subrange(i.args.len() - tail.len(), i.args.len() as int) == tail);
            if i.route is Privileged {
                assert(i.args[i.args.len() - tail.len() - 1] == host.dinitctl);
            }
        },
        Err(_) => {},
    }
}

proof fn lemma_escalator_of(ran: Seq<bool>, from: int, k: int)
    requires
        0 <= from <= k < escalators().len(),
        k < ran.len(),
        ran[k],
        forall|j: int| from <= j < k ==> !#[trigger] ran[j],
    ensures
        escalator_of(ran, from) == Some(escalators()[k]),
    decreases k - from,
{
    if from < k {
        assert(!ran[from]);
        lemma_escalator_of(ran, from + 1, k);
    }
}

/// The escalator that is found is the first whose probe ran: no matter what comes
/// after it, so probing may stop there.
pub proof fn law_first_escalator_wins(ran: Seq<bool>, k: int)
    requires
        0 <= k < escalators().len(),
        k < ran.len(),
        ran[k],
        forall|j: int| 0 <= j < k ==> !#[trigger] ran[j],
    ensures
        escalator_of(ran, 0) == Some(escalators()[k]),
        escalator_of(ran.take(k + 1), 0) == Some(escalators()[k]),
{
    lemma_escalator_of(ran, 0, k);
    let t = ran.take(k + 1);
    assert forall|j: int| 0 <= j < k implies !#[trigger] t[j] by {
        assert(t[j] == ran[j]);
    }
    lemma_escalator_of(t, 0, k);
}

/// The file that is found is a candidate and is there, and no candidate before it
/// is there; none is found just when none is there.
pub proof fn law_first_candidate_wins(paths: Seq<Seq<char>>, files: Seq<Seq<char>>)
    ensures
        match first_present(paths, files) {
            Some(p) => exists|i: int|
                0 <= i < paths.len() && #[trigger] paths[i] == p && files.contains(p) && (forall|
                    j: int,
                |
                    0 <= j < i ==> !files.contains(#[trigger] paths[j])),
            None => forall|i: int| 0 <= i < paths.len() ==> !files.contains(#[trigger] paths[i]),
        },
    decreases paths.len(),
{
    if paths.len() > 0 {
        if files.contains(paths[0]) {
            assert(paths[0] == first_present(paths, files)->0);
        } else {
            let t = paths.drop_first();
            law_first_candidate_wins(t, files);
            match first_present(t, files) {
                Some(p) => {
                    let i = choose|i: int|
                        0 <= i < t.len() && #[trigger] t[i] == p && files.contains(p) && (forall|
                            j: int,
                        |
                            0 <= j < i ==> !files.contains(#[trigger] t[j]));
                    assert(paths[i + 1] == p);
                    assert forall|j: int| 0 <= j < i + 1 implies !files.contains(
                        #[trigger] paths[j],
                    ) by {
                        if j > 0 {
                            assert(paths[j] == t[j - 1]);
                        }
                    }
                },
                None => {
                    assert forall|i: int| 0 <= i < paths.len() implies !files.contains(
                        #[trigger] paths[i],
                    ) by {
                        if i > 0 {
                            assert(paths[i] == t[i - 1]);
                        }
                    }
                },
            }
        }
    }
}

/// Text whose ends are not in a class is trimmed by nothing.
proof fn lemma_trim_nothing(s: Seq<char>, class: Class)
    requires
        s.len() > 0,
        !class.holds(s[0]),
        !class.holds(s.last()),
    ensures
        trim_front(s, class) == s,
        trim(s, class) == s,
{
    assert(s.skip(0) == s);
    assert(s.take(s.len() as int) == s);
}

/// What is trimmed off the front is what belongs to the class.
proof fn lemma_trim_front_of(gap: Seq<char>, s: Seq<char>, class: Class)
    requires
        forall|i: int| 0 <= i < gap.len() ==> class.holds(#[trigger] gap[i]),
        s.len() > 0,
        !class.holds(s[0]),
    ensures
        trim_front(gap + s, class) == s,
{
    let t = gap + s;
    assert forall|i: int| 0 <= i < gap.len() implies class.holds(#[trigger] t[i]) by {
        assert(t[i] == gap[i]);
    }
    assert(t[gap.len() as int] == s[0]);
    lemma_run_len_is(t, class, gap.len());
    assert(t.skip(gap.len() as int) == s);
}

proof fn lemma_after_prefix_of(prefix: Seq<char>, rest: Seq<char>)
    ensures
        after_prefix(prefix + rest, prefix) == Some(rest),
{
    let s = prefix + rest;
    assert(s.subrange(0, prefix.len() as int) == prefix);
    assert(s.skip(prefix.len() as int) == rest);
}

/// The setting `logfile = path` is read back, whatever white space stands at
/// either end of the line and around the equals sign.
pub proof fn law_logfile_setting_is_read_back(
    line: Seq<char>,
    before: Seq<char>,
    after: Seq<char>,
    path: Seq<char>,
)
    requires
        forall|i: int| 0 <= i < before.len() ==> white_space(#[trigger] before[i]),
        forall|i: int| 0 <= i < after.len() ==> white_space(#[trigger] after[i]),
        path.len() > 0,
        !white_space(path[0]) && !white_space(path.last()),
        path[0] != '"' && path.last() != '"',
        trim(line, Class::Space) == "logfile"@ + (before + ("="@ + (after + path))),
    ensures
        logfile_setting(line) == Some(path),
{
    reveal_strlit("=");
    let value = after + path;
    let setting = "="@ + value;
    assert(setting[0] == '=');
    lemma_after_prefix_of("logfile"@, before + setting);
    lemma_after_prefix_of("="@, value);
    assert(name_ends(before + setting)) by {
        assert(before.len() > 0 ==> white_space(before[0]));
    }
    assert forall|i: int| 0 <= i < before.len() implies Class::Space.holds(
        #[trigger] before[i],
    ) by {}
    lemma_trim_front_of(before, setting, Class::Space);
    assert forall|i: int| 0 <= i < after.len() implies Class::Space.holds(#[trigger] after[i]) by {}
    lemma_trim_front_of(after, path, Class::Space);
    lemma_trim_nothing(path, Class::Space);
    lemma_trim_nothing(path, Class::Quote);
}

/// A setting whose name only begins with `logfile` names no log file.
pub proof fn law_other_settings_name_no_log(line: Seq<char>, rest: Seq<char>)
    requires
        trim(line, Class::Space) == "logfile"@ + rest,
        rest.len() > 0,
        !white_space(rest[0]) && rest[0] != '=',
    ensures
        logfile_setting(line) is None,
{
    lemma_after_prefix_of("logfile"@, rest);
}

proof fn lemma_replaced_without(s: Seq<char>, pat: Seq<char>, with: Seq<char>)
    requires
        pat.len() > 0,
        !s.contains(pat[0]),
    ensures
        replaced(s, pat, with) == s,
    decreases s.len(),
{
    if s.len() >= pat.len() {
        assert(s.contains(s[0]));
        if pat.is_prefix_of(s) {
            assert(pat[0] == s[0]);
        }
        let t = s.skip(1);
        if t.contains(pat[0]) {
            let i = choose|i: int| 0 <= i < t.len() && t[i] == pat[0];
            assert(s[i + 1] == pat[0]);
        }
        lemma_replaced_without(t, pat, with);
        assert(seq![s[0]] + t == s);
    }
}

proof fn lemma_variable_without(path: Seq<char>, name: Seq<char>, value: Option<Seq<char>>)
    requires
        !path.contains('$'),
    ensures
        with_variable(path, name, value) == path,
{
    reveal_strlit("$");
    reveal_strlit("${");
    match value {
        Some(v) => {
            assert(("$"@ + name)[0] == '$');
            assert(("${"@ + name + "}"@)[0] == '$');
            lemma_replaced_without(path, "$"@ + name, v);
            lemma_replaced_without(path, "${"@ + name + "}"@, v);
        },
        None => {},
    }
}

/// A log file's path without a dollar sign is taken as it stands, whatever the
/// environment.
pub proof fn law_plain_paths_stay(path: Seq<char>, env: EnvironmentView)
    requires
        !path.contains('$'),
    ensures
        with_variables(path, env) == path,
{
    lemma_variable_without(path, "HOME"@, as_text(env.home));
    lemma_variable_without(
        path,
        "XDG_CONFIG_HOME"@,
        as_text(env.xdg_config_home),
    );
    lemma_variable_without(path, "XDG_DATA_HOME"@, as_text(env.xdg_data_home));
    lemma_variable_without(
        path,
        "XDG_STATE_HOME"@,
        as_text(env.xdg_state_home),
    );
    lemma_variable_without(
        path,
        "XDG_CACHE_HOME"@,
        as_text(env.xdg_cache_home),
    );
    lemma_variable_without(
        path,
        "XDG_RUNTIME_DIR"@,
        as_text(env.xdg_runtime_dir),
    );
}

/// Of a log, as many lines are shown as asked for, or all if it has fewer; they are
/// its last ones. A log with no more lines than that is shown whole.
pub proof fn law_log_tail(log: Seq<char>, count: nat)
    ensures
        last_of(lines(log), count).len() == (if lines(log).len() < count {
            lines(log).len()
        } else {
            count
        }),
        last_of(lines(log), count).is_suffix_of(lines(log)),
        lines(log).len() <= count ==> joined(last_of(lines(log), count)) == joined(lines(log)),
{
    let all = lines(log);
    let shown = last_of(all, count);
    assert(all.subrange(all.len() - shown.len(), all.len() as int) == shown);
}

/// Automatic refreshes never touch the system's services: while they are shown, a
/// tick does nothing.
pub proof fn law_tick_spares_the_system(m: AppView, now: u128)
    requires
        m.current_scope == ServiceScope::System,
    ensures
        step(m, MessageView::Tick, now) == (m, TaskView::Idle),
{
}

/// What a tick sets off stays with the user's services: it lists none but those,
/// and the message that it sends, handled next, lists or reads those and no
/// others.
pub proof fn law_tick_stays_with_the_user(m: AppView, now: u128, later: u128)
    ensures
        ({
            let task = step(m, MessageView::Tick, now).1;
            ||| task is Idle
            ||| task is Send
            ||| task == TaskView::LoadServices(ServiceScope::User)
        }),
        step(m, MessageView::Tick, now).1 matches TaskView::Send(message) ==> ({
            let task = step(step(m, MessageView::Tick, now).0, message, later).1;
            ||| task is Idle
            ||| task == TaskView::LoadServices(ServiceScope::User)
            ||| (task matches TaskView::RefreshService(scope, _) && scope == ServiceScope::User)
        }),
{
}

/// The user's services are refreshed whenever the interval has passed and none is
/// selected: they are listed at once or by the message that is sent, and what
/// comes back is merged into the list that is kept. The loader is shown only
/// where no list is kept.
pub proof fn law_ticks_refresh_the_list(
    m: AppView,
    now: u128,
    list: Seq<ServiceView>,
    later: u128,
)
    requires
        m.current_scope == ServiceScope::User,
        now >= m.last_refresh + REFRESH_INTERVAL,
        m.selected_service is None,
    ensures
        ({
            let (ticked, task) = step(m, MessageView::Tick, now);
            let (after, done) = match task {
                TaskView::Send(message) => step(ticked, message, now),
                _ => (ticked, task),
            };
            let loaded = step(
                after,
                MessageView::ServicesLoaded(ServiceScope::User, Ok(list)),
                later,
            ).0;
            &&& done == TaskView::LoadServices(ServiceScope::User)
            &&& after.last_refresh == now
            &&& after.user_services == m.user_services
            &&& m.user_services.len() == 0 ==> after.is_loading
            &&& m.user_services.len() > 0 ==> after.is_loading == m.is_loading
            &&& loaded.user_services == refreshed(m.user_services, list)
            &&& !loaded.is_loading
        }),
{
}

/// Automatic refreshes are at least the interval apart: after one, a tick within
/// the interval does nothing.
pub proof fn law_ticks_are_apart(m: AppView, now: u128, later: u128)
    requires
        !(step(m, MessageView::Tick, now).1 is Idle),
        later < now + REFRESH_INTERVAL,
    ensures
        ({
            let after = step(m, MessageView::Tick, now).0;
            step(after, MessageView::Tick, later) == (after, TaskView::Idle)
        }),
{
}

/// Whether a message asks for an action on a service.
pub open spec fn asks_action(message: MessageView) -> bool {
    ||| message is StartService
    ||| message is StopService
    ||| message is RestartService
    ||| message is EnableService
    ||| message is DisableService
}

/// While an action is under way, a request for another one changes nothing and
/// does nothing.
pub proof fn law_requests_during_an_action_are_ignored(m: AppView, message: MessageView, now: u128)
    requires
        m.action_in_progress,
        asks_action(message),
    ensures
        step(m, message, now) == (m, TaskView::Idle),
{
}

/// An action is started by a request alone, and only while none is under way;
/// from then on one is. Only its completion ends that.
pub proof fn law_action_lifecycle(m: AppView, message: MessageView, now: u128)
    ensures
        step(m, message, now).1 is Control <==> asks_action(message) && !m.action_in_progress,
        step(m, message, now).1 is Control ==> step(m, message, now).0.action_in_progress,
        step(m, message, now).1 matches TaskView::Control(scope, _, _) ==> scope
            == m.current_scope,
        m.action_in_progress && !(message is ServiceActionComplete) ==> step(
            m,
            message,
            now,
        ).0.action_in_progress,
        message is ServiceActionComplete ==> !step(m, message, now).0.action_in_progress,
{
}

/// The state after messages that come one after the other, each with the reading
/// of the clock.
pub open spec fn run(m: AppView, messages: Seq<(MessageView, u128)>) -> AppView
    decreases messages.len(),
{
    if messages.len() == 0 {
        m
    } else {
        let before = run(m, messages.drop_last());
        step(before, messages.last().0, messages.last().1).0
    }
}

/// How many actions are started by messages that come one after the other.
pub open spec fn actions_started(m: AppView, messages: Seq<(MessageView, u128)>) -> nat
    decreases messages.len(),
{
    if messages.len() == 0 {
        0
    } else {
        let before = run(m, messages.drop_last());
        actions_started(m, messages.drop_last()) + (if step(
            before,
            messages.last().0,
            messages.last().1,
        ).1 is Control {
            1nat
        } else {
            0nat
        })
    }
}

/// One action at a time: until an action completes, no matter which messages come
/// and in which order, at most one is started, and none if one was under way.
pub proof fn law_one_action_at_a_time(m: AppView, messages: Seq<(MessageView, u128)>)
    requires
        forall|i: int|
            0 <= i < messages.len() ==> !((#[trigger] messages[i]).0 is ServiceActionComplete),
    ensures
        actions_started(m, messages) + (if m.action_in_progress {
            1nat
        } else {
            0nat
        }) <= 1,
        run(m, messages).action_in_progress <==> m.action_in_progress || actions_started(
            m,
            messages,
        ) == 1,
    decreases messages.len(),
{
    if messages.len() > 0 {
        let d = messages.drop_last();
        assert forall|i: int| 0 <= i < d.len() implies !((
        #[trigger] d[i]).0 is ServiceActionComplete) by {
            assert(d[i] == messages[i]);
        }
        law_one_action_at_a_time(m, d);
        assert(!(messages[messages.len() - 1].0 is ServiceActionComplete));
        law_action_lifecycle(run(m, d), messages.last().0, messages.last().1);
    }
}

/// However many ticks come while the system's services are shown, nothing changes.
pub proof fn law_ticks_never_touch_the_system(m: AppView, messages: Seq<(MessageView, u128)>)
    requires
        m.current_scope == ServiceScope::System,
        forall|i: int| 0 <= i < messages.len() ==> (#[trigger] messages[i]).0 is Tick,
    ensures
        run(m, messages) == m,
    decreases messages.len(),
{
    if messages.len() > 0 {
        let d = messages.drop_last();
        assert forall|i: int| 0 <= i < d.len() implies (#[trigger] d[i]).0 is Tick by {
            assert(d[i] == messages[i]);
        }
        law_ticks_never_touch_the_system(m, d);
        assert(messages[messages.len() - 1].0 is Tick);
    }
}

/// Services that are already there are not listed again when their scope is
/// entered: nothing runs, and but for the scope nothing changes.
pub proof fn law_loaded_services_are_not_listed_again(m: AppView, scope: ServiceScope, now: u128)
    requires
        m.services(scope).len() > 0,
    ensures
        step(m, MessageView::LoadServices(Some(scope)), now) == (
            AppView { current_scope: scope, ..m },
            TaskView::Idle,
        ),
{
}

/// Once both lists are there, leaving a scope and coming back is silent: nothing
/// runs, and the state is what it was.
pub proof fn law_switching_back_is_silent(m: AppView, other: ServiceScope, now: u128, later: u128)
    requires
        m.services(m.current_scope).len() > 0,
        m.services(other).len() > 0,
    ensures
        ({
            let (away, first) = step(m, MessageView::LoadServices(Some(other)), now);
            let (back, second) = step(
                away,
                MessageView::LoadServices(Some(m.current_scope)),
                later,
            );
            first is Idle && second is Idle && back == m
        }),
{
}

/// Entering a scope runs a listing only if the scope has no services yet; the
/// loader is shown, and it is gone once the list has come.
pub proof fn law_loader_is_shown_while_listing(
    m: AppView,
    asked: Option<ServiceScope>,
    now: u128,
    result: Result<Seq<ServiceView>, Seq<char>>,
    later: u128,
)
    ensures
        step(m, MessageView::LoadServices(asked), now).1 matches TaskView::LoadServices(scope)
            ==> ({
            let after = step(m, MessageView::LoadServices(asked), now).0;
            &&& after.is_loading
            &&& after.current_scope == scope
            &&& after.services(scope).len() == 0
            &&& !step(after, MessageView::ServicesLoaded(scope, result), later).0.is_loading
        }),
{
}

/// Services are listed in three cases only: when a scope without services is
/// entered, when an action completes, and when the clock ticks while the user's
/// services are shown. It is always the current scope that is listed.
pub proof fn law_when_services_are_listed(m: AppView, message: MessageView, now: u128)
    ensures
        step(m, message, now).1 matches TaskView::LoadServices(scope) ==> {
            &&& message is LoadServices && m.services(scope).len() == 0
                || message is ServiceActionComplete || (message is Tick && scope
                == ServiceScope::User)
            &&& scope == step(m, message, now).0.current_scope
        },
{
}

/// A listing that failed leaves no services in its scope, and says why; nothing
/// stays selected.
pub proof fn law_failed_listing_is_reported(
    m: AppView,
    scope: ServiceScope,
    error: Seq<char>,
    now: u128,
)
    ensures
        ({
            let after = step(m, MessageView::ServicesLoaded(scope, Err(error)), now).0;
            &&& after.services(scope).len() == 0
            &&& after.load_error == Some(error)
            &&& after.selected_service is None
        }),
{
    let none = Seq::<ServiceView>::empty();
    let list = refreshed(m.services(scope), none);
    if list.len() > 0 {
        assert(has_name(list, list[0].name));
        law_refresh_takes_over_the_names(m.services(scope), none, list[0].name);
    }
}

/// After a listing the scope has exactly the services of the list, by name, and
/// no error is shown.
pub proof fn law_listing_is_taken_over(
    m: AppView,
    scope: ServiceScope,
    list: Seq<ServiceView>,
    name: Seq<char>,
    now: u128,
)
    ensures
        ({
            let after = step(m, MessageView::ServicesLoaded(scope, Ok(list)), now).0;
            &&& after.load_error is None
            &&& has_name(after.services(scope), name) <==> has_name(list, name)
        }),
{
    law_refresh_takes_over_the_names(m.services(scope), list, name);
}

/// The selected service follows the list: once a list has come, it is the record
/// of that name in the list, or nothing is selected any more.
pub proof fn law_selection_follows_the_list(
    m: AppView,
    scope: ServiceScope,
    result: Result<Seq<ServiceView>, Seq<char>>,
    now: u128,
)
    ensures
        ({
            let after = step(m, MessageView::ServicesLoaded(scope, result), now).0;
            after.selected_service == (match m.selected_service {
                Some(s) => lookup(after.services(scope), s.name),
                None => None,
            })
        }),
{
}

/// Only two messages change a list: a listing changes that of its scope, and a
/// refreshed service that of the current scope. All else stays.
pub proof fn law_lists_change_only_in_their_scope(
    m: AppView,
    message: MessageView,
    now: u128,
    scope: ServiceScope,
)
    requires
        message matches MessageView::ServicesLoaded(s, _) ==> s != scope,
        message is CurrentServiceRefreshed ==> m.current_scope != scope,
    ensures
        step(m, message, now).0.services(scope) == m.services(scope),
{
}

/// If no list has a name twice, and listings bring none twice, no list ever has a
/// name twice.
pub proof fn law_names_stay_distinct(m: AppView, message: MessageView, now: u128)
    requires
        distinct_names(m.system_services),
        distinct_names(m.user_services),
        message matches MessageView::ServicesLoaded(_, Ok(list)) ==> distinct_names(list),
    ensures
        distinct_names(step(m, message, now).0.system_services),
        distinct_names(step(m, message, now).0.user_services),
{
    match message {
        MessageView::ServicesLoaded(scope, result) => {
            let news = match result {
                Ok(list) => list,
                Err(_) => Seq::empty(),
            };
            law_refresh_keeps_names_distinct(m.services(scope), news);
        },
        MessageView::CurrentServiceRefreshed(Some(s), _) => {
            law_put_keeps_the_names(m.services(m.current_scope), s);
        },
        _ => {},
    }
}

/// In every state that messages lead to, no list has a name twice, if none had at
/// the start and listings bring none twice.
pub proof fn law_names_are_always_distinct(m: AppView, messages: Seq<(MessageView, u128)>)
    requires
        distinct_names(m.system_services),
        distinct_names(m.user_services),
        forall|i: int|
            0 <= i < messages.len() ==> ((#[trigger] messages[i]).0 matches
                MessageView::ServicesLoaded(_, Ok(list)) ==> distinct_names(list)),
    ensures
        distinct_names(run(m, messages).system_services),
        distinct_names(run(m, messages).user_services),
    decreases messages.len(),
{
    if messages.len() > 0 {
        let d = messages.drop_last();
        assert forall|i: int| 0 <= i < d.len() implies ((#[trigger] d[i]).0 matches
            MessageView::ServicesLoaded(_, Ok(list)) ==> distinct_names(list)) by {
            assert(d[i] == messages[i]);
        }
        law_names_are_always_distinct(m, d);
        let last = messages[messages.len() - 1];
        assert(last.0 matches MessageView::ServicesLoaded(_, Ok(list)) ==> distinct_names(list));
        law_names_stay_distinct(run(m, d), last.0, last.1);
    }
}

/// A refreshed service is the selected one, and is found in the current list if
/// one of its name was there; no list gains or loses a name.
pub proof fn law_refreshed_service_is_shown(m: AppView, s: ServiceView, logs: Seq<char>, now: u128)
    ensures
        ({
            let after = step(m, MessageView::CurrentServiceRefreshed(Some(s), logs), now).0;
            let scope = m.current_scope;
            &&& after.selected_service == Some(s)
            &&& after.service_logs == logs
            &&& names(after.services(scope)) == names(m.services(scope))
            &&& has_name(m.services(scope), s.name) ==> lookup(after.services(scope), s.name)
                == Some(s)
        }),
{
    let list = m.services(m.current_scope);
    law_put_keeps_the_names(list, s);
    lemma_place(list, s.name);
    if has_name(list, s.name) {
        let n = place(list, s.name);
        let after = put(list, s);
        assert forall|i: int| 0 <= i < n implies (#[trigger] after[i]).name != s.name by {
            assert(after[i] == list[i]);
        }
        lemma_place_is(after, s.name, n);
    }
}

/// Selecting a service shows its details and reads its log; going back selects
/// nothing and shows the list of the scope.
pub proof fn law_select_and_back(m: AppView, s: ServiceView, now: u128, later: u128)
    ensures
        ({
            let (there, task) = step(m, MessageView::SelectService(s), now);
            let (back, none) = step(there, MessageView::BackToList, later);
            &&& there.selected_service == Some(s)
            &&& there.current_page == Page::Details
            &&& task == TaskView::LoadLogs(m.current_scope, s.name)
            &&& none is Idle
            &&& back == AppView {
                selected_service: None,
                current_page: list_page(m.current_scope),
                ..m
            }
        }),
{
}

/// When an action completes, the services of the current scope are listed anew,
/// whatever list is there; what comes back is merged into that list. The loader
/// is shown for it only where no list is there.
pub proof fn law_completed_action_refreshes_the_list(
    m: AppView,
    now: u128,
    list: Seq<ServiceView>,
    later: u128,
)
    ensures
        ({
            let scope = m.current_scope;
            let (after, task) = step(m, MessageView::ServiceActionComplete, now);
            let loaded = step(after, MessageView::ServicesLoaded(scope, Ok(list)), later).0;
            &&& task == TaskView::LoadServices(scope)
            &&& !after.action_in_progress
            &&& after.services(scope) == m.services(scope)
            &&& m.services(scope).len() == 0 ==> after.is_loading
            &&& m.services(scope).len() > 0 ==> after.is_loading == m.is_loading
            &&& loaded.services(scope) == refreshed(m.services(scope), list)
            &&& !loaded.is_loading
        }),
{
}

/// Toggling a page of the drawer makes it the one there; a page that is there
/// already is toggled back by a second time.
pub proof fn law_toggle_context_page(m: AppView, page: ContextPage, now: u128, later: u128)
    ensures
        ({
            let once = step(m, MessageView::ToggleContextPage(page), now).0;
            let twice = step(once, MessageView::ToggleContextPage(page), later).0;
            &&& once.context_page == page
            &&& m.context_page == page ==> twice == m
            &&& m.context_page != page ==> once.show_context && !twice.show_context
        }),
{
}

} // verus!
