//! What is shown of a selected service: its status report and its log.

use vstd::prelude::*;
use vstd::string::*;

use crate::environment::{as_text, opt_string, variable_text, Environment, EnvironmentView};
use crate::text::{
    after_prefix, chars, leading_number, lines, parse_leading_number, replace_all, replaced,
    split_lines, strip_prefix, trim, trim_front, trimmed, trimmed_front, white_space, Class,
};

verus! {

/// What a line of a status report says of the process ID, if it speaks of it. The
/// ID is the number at the front of the field, if there is one.
pub open spec fn pid_field(line: Seq<char>) -> Option<Option<u32>> {
    let t = trim(line, Class::Space);
    match after_prefix(t, "pid:"@) {
        Some(rest) => Some(leading_number(trim(rest, Class::Space))),
        None => match after_prefix(t, "Process ID:"@) {
            Some(rest) => Some(leading_number(trim(rest, Class::Space))),
            None => None,
        },
    }
}

/// What a line of a status report says of the description file, if it speaks of
/// it.
pub open spec fn file_field(line: Seq<char>) -> Option<Seq<char>> {
    if pid_field(line) is Some {
        None
    } else {
        match after_prefix(trim(line, Class::Space), "File:"@) {
            Some(rest) => Some(trim(rest, Class::Space)),
            None => None,
        }
    }
}

/// The process ID that a status report gives: the last line that speaks of it
/// counts.
pub open spec fn reported_pid(report: Seq<Seq<char>>) -> Option<u32>
    decreases report.len(),
{
    if report.len() == 0 {
        None
    } else {
        match pid_field(report.last()) {
            Some(pid) => pid,
            None => reported_pid(report.drop_last()),
        }
    }
}

/// The description file that a status report gives, or nothing: the last line
/// that speaks of it counts.
pub open spec fn reported_file(report: Seq<Seq<char>>) -> Seq<char>
    decreases report.len(),
{
    if report.len() == 0 {
        Seq::empty()
    } else {
        match file_field(report.last()) {
            Some(file) => file,
            None => reported_file(report.drop_last()),
        }
    }
}

fn line_pid(line: &str) -> (pid: Option<Option<u32>>)
    ensures
        pid == pid_field(line@),
{
    let t = trimmed(line, Class::Space);
    if let Some(rest) = strip_prefix(t, "pid:") {
        return Some(parse_leading_number(trimmed(rest, Class::Space)));
    }
    if let Some(rest) = strip_prefix(t, "Process ID:") {
        return Some(parse_leading_number(trimmed(rest, Class::Space)));
    }
    None
}

/// The description file and the process ID that the output of `dinitctl status`
/// gives.
pub fn parse_status(output: &str) -> (details: (String, Option<u32>))
    ensures
        details.0@ == reported_file(lines(output@)),
        details.1 == reported_pid(lines(output@)),
{
    let ls = split_lines(output);
    let ghost all = lines(output@);
    let mut path: String = String::new();
    let mut pid: Option<u32> = None;
    let mut i: usize = 0;
    assert(all.take(0) == Seq::<Seq<char>>::empty());
    while i < ls.len()
        invariant
            ls.deep_view() == all,
            i <= ls@.len(),
            path@ == reported_file(all.take(i as int)),
            pid == reported_pid(all.take(i as int)),
        decreases ls@.len() - i,
    {
        proof {
            assert(all[i as int] == ls@[i as int]@);
            assert(all.take(i + 1).drop_last() == all.take(i as int));
            assert(all.take(i + 1).last() == ls@[i as int]@);
        }
        let line = ls[i];
        match line_pid(line) {
            Some(value) => {
                pid = value;
            },
            None => {
                if let Some(rest) = strip_prefix(trimmed(line, Class::Space), "File:") {
                    path = trimmed(rest, Class::Space).to_string();
                }
            },
        }
        i += 1;
    }
    assert(all.take(all.len() as int) == all);
    (path, pid)
}

/// Whether the name of a setting ends where `rest` begins: white space, an equals
/// sign or nothing follows.
pub open spec fn name_ends(rest: Seq<char>) -> bool {
    rest.len() == 0 || white_space(rest[0]) || rest[0] == '='
}

/// What a line of a description file names as the log file, if it does: what
/// follows `logfile` and an equals sign, which may be left out, without spaces
/// and then without quotation marks at either end. A setting whose name only
/// begins with that word, such as `logfile-permissions`, names none.
pub open spec fn logfile_setting(line: Seq<char>) -> Option<Seq<char>> {
    match after_prefix(trim(line, Class::Space), "logfile"@) {
        Some(rest) if name_ends(rest) => {
            let setting = trim_front(rest, Class::Space);
            let value = match after_prefix(setting, "="@) {
                Some(v) => v,
                None => setting,
            };
            let path = trim(trim(value, Class::Space), Class::Quote);
            if path.len() > 0 {
                Some(path)
            } else {
                None
            }
        },
        _ => None,
    }
}

/// The log file of the first line that names one.
pub open spec fn first_logfile(description: Seq<Seq<char>>) -> Option<Seq<char>>
    decreases description.len(),
{
    if description.len() == 0 {
        None
    } else {
        match logfile_setting(description[0]) {
            Some(path) => Some(path),
            None => first_logfile(description.drop_first()),
        }
    }
}

/// `path` with the value of a variable in place of `$NAME` and then of `${NAME}`;
/// unchanged if the variable has no value.
pub open spec fn with_variable(
    path: Seq<char>,
    name: Seq<char>,
    value: Option<Seq<char>>,
) -> Seq<char> {
    match value {
        Some(v) => replaced(replaced(path, "$"@ + name, v), "${"@ + name + "}"@, v),
        None => path,
    }
}

/// `path` with the values of the variables that name one directory each: the
/// home directory, and the base directories of the XDG conventions.
pub open spec fn with_variables(path: Seq<char>, env: EnvironmentView) -> Seq<char> {
    let p = with_variable(path, "HOME"@, as_text(env.home));
    let p = with_variable(p, "XDG_CONFIG_HOME"@, as_text(env.xdg_config_home));
    let p = with_variable(p, "XDG_DATA_HOME"@, as_text(env.xdg_data_home));
    let p = with_variable(p, "XDG_STATE_HOME"@, as_text(env.xdg_state_home));
    let p = with_variable(p, "XDG_CACHE_HOME"@, as_text(env.xdg_cache_home));
    with_variable(p, "XDG_RUNTIME_DIR"@, as_text(env.xdg_runtime_dir))
}

/// The log file that a description file names, with its variables replaced.
pub open spec fn logfile_path(description: Seq<char>, env: EnvironmentView) -> Option<Seq<char>> {
    match first_logfile(lines(description)) {
        Some(path) => Some(with_variables(path, env)),
        None => None,
    }
}

fn at_name_end(rest: &str) -> (b: bool)
    ensures
        b == name_ends(rest@),
{
    let c = chars(rest);
    c.len() == 0 || Class::Space.contains(c[0]) || c[0] == '='
}

fn line_logfile(line: &str) -> (path: Option<String>)
    ensures
        opt_string(path) == logfile_setting(line@),
{
    match strip_prefix(trimmed(line, Class::Space), "logfile") {
        Some(rest) => {
            if !at_name_end(rest) {
                return None;
            }
            let setting = trimmed_front(rest, Class::Space);
            let value = match strip_prefix(setting, "=") {
                Some(v) => v,
                None => setting,
            };
            let path = trimmed(trimmed(value, Class::Space), Class::Quote);
            if !path.is_empty() {
                Some(path.to_string())
            } else {
                None
            }
        },
        None => None,
    }
}

fn replace_variable(path: String, name: &str, var: &Option<Vec<u8>>) -> (out: String)
    ensures
        out@ == with_variable(path@, name@, as_text(crate::environment::opt_bytes(*var))),
{
    match variable_text(var) {
        Some(value) => {
            proof {
                reveal_strlit("$");
                reveal_strlit("${");
            }
            let plain = "$".to_string().concat(name);
            let braced = "${".to_string().concat(name).concat("}");
            let once = replace_all(path.as_str(), plain.as_str(), value.as_str());
            replace_all(once.as_str(), braced.as_str(), value.as_str())
        },
        None => path,
    }
}

/// The log file that a description file names, with its variables replaced.
pub fn find_logfile(description: &str, env: &Environment) -> (path: Option<String>)
    ensures
        opt_string(path) == logfile_path(description@, env@),
{
    let ls = split_lines(description);
    let ghost all = lines(description@);
    let mut i: usize = 0;
    assert(all.skip(0) == all);
    while i < ls.len()
        invariant
            ls.deep_view() == all,
            all == lines(description@),
            i <= ls@.len(),
            first_logfile(all) == first_logfile(all.skip(i as int)),
        decreases ls@.len() - i,
    {
        proof {
            assert(all.skip(i as int)[0] == ls@[i as int]@);
            assert(all.skip(i as int).drop_first() == all.skip(i + 1));
        }
        if let Some(raw) = line_logfile(ls[i]) {
            let p = replace_variable(raw, "HOME", &env.home);
            let p = replace_variable(p, "XDG_CONFIG_HOME", &env.xdg_config_home);
            let p = replace_variable(p, "XDG_DATA_HOME", &env.xdg_data_home);
            let p = replace_variable(p, "XDG_STATE_HOME", &env.xdg_state_home);
            let p = replace_variable(p, "XDG_CACHE_HOME", &env.xdg_cache_home);
            let p = replace_variable(p, "XDG_RUNTIME_DIR", &env.xdg_runtime_dir);
            return Some(p);
        }
        i += 1;
    }
    None
}

} // verus!
