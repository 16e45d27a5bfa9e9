//! What is read of status reports, of description files and of logs.

use vstd::prelude::*;
use vstd::string::*;

use crate::details::{
    file_field, first_logfile, logfile_path, logfile_setting, pid_field, reported_file,
    reported_pid, with_variable, with_variables,
};
use crate::dinit::{described_log, service_details, service_logs, LogRead, ServiceScope};
use crate::environment::{as_text, EnvironmentView};
use crate::laws::text::{
    all_in, law_nothing_to_replace, law_numbers_are_read_back, law_no_digit_no_number,
    law_the_first_match_is_replaced, law_trim_front_of, law_trim_of, lemma_numeral, numeral,
};
use crate::laws::{law_first_candidate_wins, lemma_after_prefix_of};
use crate::paths::candidate_paths;
use crate::text::{joined, last_of, lines, replaced, trim, white_space, Class};

verus! {

/// Whether a text is without white space at its ends.
pub open spec fn bare(s: Seq<char>) -> bool {
    s.len() > 0 ==> !white_space(s[0]) && !white_space(s.last())
}

proof fn lemma_trim_gap(gap: Seq<char>, s: Seq<char>)
    requires
        all_in(gap, Class::Space),
        bare(s),
    ensures
        trim(gap + s, Class::Space) == s,
{
    let none = Seq::<char>::empty();
    law_trim_of(gap, s, none, Class::Space);
    assert(gap + s + none == gap + s);
}

proof fn lemma_labels()
    ensures
        "pid:"@.len() == 4 && "pid:"@[0] == 'p',
        "Process ID:"@.len() == 11 && "Process ID:"@[0] == 'P' && "Process ID:"@[1] == 'r',
        "File:"@.len() == 5 && "File:"@[0] == 'F',
{
    reveal_strlit("pid:");
    reveal_strlit("Process ID:");
    reveal_strlit("File:");
}

proof fn lemma_not_prefix(prefix: Seq<char>, s: Seq<char>)
    requires
        prefix.len() > 0,
        s.len() > 0,
        prefix[0] != s[0],
    ensures
        !prefix.is_prefix_of(s),
{
    if prefix.is_prefix_of(s) {
        assert(s.subrange(0, prefix.len() as int)[0] == s[0]);
    }
}

/// A process ID is read back from its line under either label, whatever white
/// space and zeros stand before it and whatever but a digit follows it; one that
/// does not fit in 32 bits counts as none.
pub proof fn law_process_ids_are_read_back(
    line: Seq<char>,
    gap: Seq<char>,
    zeros: nat,
    n: nat,
    tail: Seq<char>,
)
    requires
        all_in(gap, Class::Space),
        tail.len() > 0 ==> !Class::Digit.holds(tail[0]) && !white_space(tail.last()),
        ({
            let number = Seq::new(zeros, |i: int| '0') + numeral(n) + tail;
            trim(line, Class::Space) == "pid:"@ + (gap + number) || trim(line, Class::Space)
                == "Process ID:"@ + (gap + number)
        }),
    ensures
        n <= 4_294_967_295 ==> pid_field(line) == Some(Some(n as u32)),
        n > 4_294_967_295 ==> pid_field(line) == Some(None::<u32>),
        file_field(line) is None,
{
    let digits = Seq::new(zeros, |i: int| '0') + numeral(n);
    let number = digits + tail;
    lemma_labels();
    lemma_numeral(zeros, n);
    assert(Class::Digit.holds(digits[0]));
    assert(Class::Digit.holds(digits[digits.len() - 1]));
    assert(number[0] == digits[0]);
    if tail.len() == 0 {
        assert(number.last() == digits[digits.len() - 1]);
    } else {
        assert(number.last() == tail.last());
    }
    lemma_trim_gap(gap, number);
    law_numbers_are_read_back(zeros, n, tail);
    lemma_after_prefix_of("pid:"@, gap + number);
    lemma_after_prefix_of("Process ID:"@, gap + number);
    assert(("Process ID:"@ + (gap + number))[0] == 'P');
    lemma_not_prefix("pid:"@, "Process ID:"@ + (gap + number));
}

/// A line with either label and no number behind it says that there is no process
/// ID.
pub proof fn law_missing_process_ids(line: Seq<char>, gap: Seq<char>, tail: Seq<char>)
    requires
        all_in(gap, Class::Space),
        bare(tail),
        tail.len() > 0 ==> !Class::Digit.holds(tail[0]),
        trim(line, Class::Space) == "pid:"@ + (gap + tail) || trim(line, Class::Space)
            == "Process ID:"@ + (gap + tail),
    ensures
        pid_field(line) == Some(None::<u32>),
        file_field(line) is None,
{
    lemma_labels();
    lemma_trim_gap(gap, tail);
    law_no_digit_no_number(tail);
    lemma_after_prefix_of("pid:"@, gap + tail);
    lemma_after_prefix_of("Process ID:"@, gap + tail);
    assert(("Process ID:"@ + (gap + tail))[0] == 'P');
    lemma_not_prefix("pid:"@, "Process ID:"@ + (gap + tail));
}

/// A description file is read back from its line, without the white space round it,
/// and such a line says nothing of the process ID.
pub proof fn law_files_are_read_back(line: Seq<char>, gap: Seq<char>, path: Seq<char>)
    requires
        all_in(gap, Class::Space),
        bare(path),
        trim(line, Class::Space) == "File:"@ + (gap + path),
    ensures
        file_field(line) == Some(path),
        pid_field(line) is None,
{
    lemma_labels();
    let t = "File:"@ + (gap + path);
    assert(t[0] == 'F');
    lemma_not_prefix("pid:"@, t);
    lemma_not_prefix("Process ID:"@, t);
    lemma_after_prefix_of("File:"@, gap + path);
    lemma_trim_gap(gap, path);
}

/// A line without a label says nothing: of the process ID without the two labels
/// of it, of the description file without that of it.
pub proof fn law_lines_without_labels(line: Seq<char>)
    ensures
        !"pid:"@.is_prefix_of(trim(line, Class::Space)) && !"Process ID:"@.is_prefix_of(
            trim(line, Class::Space),
        ) ==> pid_field(line) is None,
        !"File:"@.is_prefix_of(trim(line, Class::Space)) ==> file_field(line) is None,
{
}

/// The last line of a report that speaks of the process ID counts: those before it
/// do not, and those behind it say nothing.
pub proof fn law_the_last_process_id_counts(
    before: Seq<Seq<char>>,
    line: Seq<char>,
    behind: Seq<Seq<char>>,
    pid: Option<u32>,
)
    requires
        pid_field(line) == Some(pid),
        forall|i: int| 0 <= i < behind.len() ==> pid_field(#[trigger] behind[i]) is None,
    ensures
        reported_pid(before + seq![line] + behind) == pid,
    decreases behind.len(),
{
    let all = before + seq![line] + behind;
    if behind.len() == 0 {
        assert(all.last() == line);
    } else {
        let d = behind.drop_last();
        assert forall|i: int| 0 <= i < d.len() implies pid_field(#[trigger] d[i]) is None by {
            assert(d[i] == behind[i]);
        }
        law_the_last_process_id_counts(before, line, d, pid);
        assert(all.drop_last() == before + seq![line] + d);
        assert(all.last() == behind[behind.len() - 1]);
    }
}

/// The last line of a report that speaks of the description file counts.
pub proof fn law_the_last_file_counts(
    before: Seq<Seq<char>>,
    line: Seq<char>,
    behind: Seq<Seq<char>>,
    file: Seq<char>,
)
    requires
        file_field(line) == Some(file),
        forall|i: int| 0 <= i < behind.len() ==> file_field(#[trigger] behind[i]) is None,
    ensures
        reported_file(before + seq![line] + behind) == file,
    decreases behind.len(),
{
    let all = before + seq![line] + behind;
    if behind.len() == 0 {
        assert(all.last() == line);
    } else {
        let d = behind.drop_last();
        assert forall|i: int| 0 <= i < d.len() implies file_field(#[trigger] d[i]) is None by {
            assert(d[i] == behind[i]);
        }
        law_the_last_file_counts(before, line, d, file);
        assert(all.drop_last() == before + seq![line] + d);
        assert(all.last() == behind[behind.len() - 1]);
    }
}

/// A report in which no line speaks of the process ID, or of the description file,
/// gives none.
pub proof fn law_silent_reports(report: Seq<Seq<char>>)
    ensures
        (forall|i: int| 0 <= i < report.len() ==> pid_field(#[trigger] report[i]) is None)
            ==> reported_pid(report) is None,
        (forall|i: int| 0 <= i < report.len() ==> file_field(#[trigger] report[i]) is None)
            ==> reported_file(report) == Seq::<char>::empty(),
    decreases report.len(),
{
    if report.len() > 0 {
        let d = report.drop_last();
        law_silent_reports(d);
        assert(report.last() == report[report.len() - 1]);
        if forall|i: int| 0 <= i < report.len() ==> pid_field(#[trigger] report[i]) is None {
            assert forall|i: int| 0 <= i < d.len() implies pid_field(#[trigger] d[i]) is None by {
                assert(d[i] == report[i]);
            }
        }
        if forall|i: int| 0 <= i < report.len() ==> file_field(#[trigger] report[i]) is None {
            assert forall|i: int| 0 <= i < d.len() implies file_field(#[trigger] d[i]) is None by {
                assert(d[i] == report[i]);
            }
        }
    }
}

/// What is shown of a service is what its report gives. Where that names no file,
/// or there is no report, it is the first candidate that is a file, and nothing if
/// none is; a process ID comes from the report alone.
pub proof fn law_details_of_a_service(
    scope: ServiceScope,
    name: Seq<char>,
    report: Seq<char>,
    env: EnvironmentView,
    files: Seq<Seq<char>>,
    k: int,
)
    ensures
        service_details(scope, name, Ok(report), env, files).1 == reported_pid(lines(report)),
        service_details(scope, name, Err(report), env, files).1 is None,
        reported_file(lines(report)).len() > 0 ==> service_details(
            scope,
            name,
            Ok(report),
            env,
            files,
        ).0 == reported_file(lines(report)),
        reported_file(lines(report)).len() == 0 ==> service_details(
            scope,
            name,
            Ok(report),
            env,
            files,
        ).0 == service_details(scope, name, Err(report), env, files).0,
        ({
            let paths = candidate_paths(scope, name, env);
            let shown = service_details(scope, name, Err(report), env, files).0;
            &&& 0 <= k < paths.len() && files.contains(paths[k]) && (forall|j: int|
                0 <= j < k ==> !files.contains(#[trigger] paths[j])) ==> shown == paths[k]
            &&& (forall|j: int| 0 <= j < paths.len() ==> !files.contains(#[trigger] paths[j]))
                ==> shown == Seq::<char>::empty()
        }),
{
    let paths = candidate_paths(scope, name, env);
    law_first_candidate_wins(paths, files);
    match crate::paths::first_present(paths, files) {
        Some(p) => {
            let i = choose|i: int|
                0 <= i < paths.len() && #[trigger] paths[i] == p && files.contains(p) && (forall|
                    j: int,
                |
                    0 <= j < i ==> !files.contains(#[trigger] paths[j]));
            assert(files.contains(paths[i]));
            if 0 <= k < paths.len() && files.contains(paths[k]) && (forall|j: int|
                0 <= j < k ==> !files.contains(#[trigger] paths[j])) {
                if i < k {
                    assert(!files.contains(paths[i]));
                }
                if k < i {
                    assert(!files.contains(paths[k]));
                }
            }
        },
        None => {
            if 0 <= k < paths.len() {
                assert(!files.contains(paths[k]));
            }
        },
    }
}

/// A log is shown by its last lines. One that could not be read is answered with
/// its path and the reason, and where no log file is named a remark says so.
pub proof fn law_logs_of_a_service(path: String, data: String, count: nat)
    ensures
        service_logs(Some(LogRead { path, data: Ok(data) }), count) == Ok::<Seq<char>, Seq<char>>(
            joined(last_of(lines(data@), count)),
        ),
        service_logs(Some(LogRead { path, data: Err(data) }), count) == Err::<Seq<char>, Seq<char>>(
            "logfile "@ + path@ + ": "@ + data@,
        ),
        service_logs(None, count) == Err::<Seq<char>, Seq<char>>(
            "This service has neither a log buffer (log-type = buffer) nor a logfile setting."@,
        ),
{
}

proof fn lemma_value(after: Seq<char>, open: Seq<char>, path: Seq<char>, close: Seq<char>)
    requires
        all_in(after, Class::Space),
        all_in(open, Class::Quote),
        all_in(close, Class::Quote),
        path.len() > 0 ==> path[0] != '"' && path.last() != '"',
        bare(open + path + close),
    ensures
        trim(trim(after + (open + path + close), Class::Space), Class::Quote) == path,
{
    lemma_trim_gap(after, open + path + close);
    law_trim_of(open, path, close, Class::Quote);
}

/// A log file is read back from its setting, in quotation marks or without, which
/// may hold white space at its ends if it is in quotation marks. The equals sign
/// may be left out where white space stands in its place. A setting without a path
/// names no log file.
pub proof fn law_logfiles_are_read_back(
    line: Seq<char>,
    before: Seq<char>,
    after: Seq<char>,
    open: Seq<char>,
    path: Seq<char>,
    close: Seq<char>,
)
    requires
        all_in(before, Class::Space),
        all_in(after, Class::Space),
        all_in(open, Class::Quote),
        all_in(close, Class::Quote),
        path.len() > 0 ==> path[0] != '"' && path.last() != '"',
        bare(open + path + close),
        ({
            let value = open + path + close;
            ||| trim(line, Class::Space) == "logfile"@ + (before + ("="@ + (after + value)))
            ||| trim(line, Class::Space) == "logfile"@ + (before + value) && before.len() > 0
                && value.len() > 0 && value[0] != '='
        }),
    ensures
        path.len() > 0 ==> logfile_setting(line) == Some(path),
        path.len() == 0 ==> logfile_setting(line) is None,
{
    reveal_strlit("=");
    let value = open + path + close;
    let signed = "="@ + (after + value);
    assert(signed[0] == '=');
    assert(before.len() > 0 ==> Class::Space.holds(before[0]));
    lemma_value(after, open, path, close);
    if trim(line, Class::Space) == "logfile"@ + (before + signed) {
        lemma_after_prefix_of("logfile"@, before + signed);
        law_trim_front_of(before, signed, Class::Space);
        lemma_after_prefix_of("="@, after + value);
    } else {
        let none = Seq::<char>::empty();
        lemma_after_prefix_of("logfile"@, before + value);
        law_trim_front_of(before, value, Class::Space);
        lemma_not_prefix("="@, value);
        lemma_value(none, open, path, close);
        assert(none + value == value);
    }
}

/// A line that does not start with the word names no log file, nor does the word
/// alone.
pub proof fn law_lines_without_logfile(line: Seq<char>)
    ensures
        !"logfile"@.is_prefix_of(trim(line, Class::Space)) ==> logfile_setting(line) is None,
        trim(line, Class::Space) == "logfile"@ ==> logfile_setting(line) is None,
{
    let none = Seq::<char>::empty();
    reveal_strlit("=");
    assert("logfile"@ + none == "logfile"@);
    lemma_after_prefix_of("logfile"@, none);
    law_trim_of(none, none, none, Class::Space);
    law_trim_of(none, none, none, Class::Quote);
    law_trim_front_of(none, none, Class::Space);
    assert(none + none + none == none);
    assert(none + none == none);
}

/// The first line of a description that names a log file counts: those before it
/// name none, and those behind it do not count.
pub proof fn law_the_first_logfile_counts(
    before: Seq<Seq<char>>,
    line: Seq<char>,
    behind: Seq<Seq<char>>,
    path: Seq<char>,
)
    requires
        logfile_setting(line) == Some(path),
        forall|i: int| 0 <= i < before.len() ==> logfile_setting(#[trigger] before[i]) is None,
    ensures
        first_logfile(before + seq![line] + behind) == Some(path),
    decreases before.len(),
{
    let all = before + seq![line] + behind;
    if before.len() == 0 {
        assert(all[0] == line);
    } else {
        let d = before.drop_first();
        assert forall|i: int| 0 <= i < d.len() implies logfile_setting(
            #[trigger] d[i],
        ) is None by {
            assert(d[i] == before[i + 1]);
        }
        law_the_first_logfile_counts(d, line, behind, path);
        assert(all.drop_first() == d + seq![line] + behind);
        assert(all[0] == before[0]);
    }
}

/// A description in which no line names a log file names none.
pub proof fn law_no_line_no_logfile(description: Seq<Seq<char>>)
    requires
        forall|i: int|
            0 <= i < description.len() ==> logfile_setting(#[trigger] description[i]) is None,
    ensures
        first_logfile(description) is None,
    decreases description.len(),
{
    if description.len() > 0 {
        let d = description.drop_first();
        assert forall|i: int| 0 <= i < d.len() implies logfile_setting(
            #[trigger] d[i],
        ) is None by {
            assert(d[i] == description[i + 1]);
        }
        law_no_line_no_logfile(d);
        assert(logfile_setting(description[0]) is None);
    }
}

/// The log file of a description is the first that one of its lines names, with
/// its variables replaced, and none if no line names one.
pub proof fn law_logfile_of_a_description(
    description: Seq<char>,
    env: EnvironmentView,
    path: Seq<char>,
)
    ensures
        first_logfile(lines(description)) == Some(path) ==> logfile_path(description, env) == Some(
            with_variables(path, env),
        ),
        first_logfile(lines(description)) is None ==> logfile_path(description, env) is None,
{
}

/// How a path refers to a variable: by a dollar sign and the name, which may stand
/// in braces.
pub open spec fn reference(name: Seq<char>, braced: bool) -> Seq<char> {
    if braced {
        seq!['$', '{'] + name + seq!['}']
    } else {
        seq!['$'] + name
    }
}

proof fn lemma_marks()
    ensures
        "$"@ == seq!['$'],
        "${"@ == seq!['$', '{'],
        "}"@ == seq!['}'],
{
    reveal_strlit("$");
    reveal_strlit("${");
    reveal_strlit("}");
}

/// What stands before the first place where a pattern can stand is kept.
proof fn lemma_kept(p: Seq<char>, b: Seq<char>, pat: Seq<char>, with: Seq<char>)
    requires
        pat.len() > 0,
        forall|i: int| 0 <= i < p.len() ==> !pat.is_prefix_of(#[trigger] (p + b).skip(i)),
    ensures
        replaced(p + b, pat, with) == p + replaced(b, pat, with),
    decreases p.len(),
{
    let s = p + b;
    if p.len() == 0 {
        assert(s == b);
        assert(p + replaced(b, pat, with) == replaced(b, pat, with));
    } else {
        let t = p.skip(1);
        assert(s.skip(0) == s);
        assert(!pat.is_prefix_of(s.skip(0)));
        assert(s.skip(1) == t + b);
        assert forall|i: int| 0 <= i < t.len() implies !pat.is_prefix_of(
            #[trigger] (t + b).skip(i),
        ) by {
            assert((t + b).skip(i) == s.skip(i + 1));
        }
        lemma_kept(t, b, pat, with);
        assert(seq![s[0]] + (t + replaced(b, pat, with)) == p + replaced(b, pat, with));
        if s.len() < pat.len() {
            lemma_short(b, pat, with);
        }
    }
}

proof fn lemma_short(s: Seq<char>, pat: Seq<char>, with: Seq<char>)
    requires
        s.len() < pat.len(),
    ensures
        replaced(s, pat, with) == s,
{
}

/// Text without a dollar sign is kept by what replaces references.
proof fn lemma_past(p: Seq<char>, b: Seq<char>, pat: Seq<char>, with: Seq<char>)
    requires
        !p.contains('$'),
        pat.len() > 0,
        pat[0] == '$',
    ensures
        replaced(p + b, pat, with) == p + replaced(b, pat, with),
{
    assert forall|i: int| 0 <= i < p.len() implies !pat.is_prefix_of(
        #[trigger] (p + b).skip(i),
    ) by {
        let t = (p + b).skip(i);
        if pat.is_prefix_of(t) {
            assert(t.subrange(0, pat.len() as int)[0] == t[0]);
            assert(p[i] == '$');
        }
    }
    lemma_kept(p, b, pat, with);
}

proof fn lemma_variable_past(
    p: Seq<char>,
    b: Seq<char>,
    name: Seq<char>,
    value: Option<Seq<char>>,
)
    requires
        !p.contains('$'),
    ensures
        with_variable(p + b, name, value) == p + with_variable(b, name, value),
{
    lemma_marks();
    match value {
        Some(v) => {
            lemma_past(p, b, "$"@ + name, v);
            lemma_past(p, replaced(b, "$"@ + name, v), "${"@ + name + "}"@, v);
        },
        None => {},
    }
}

/// A reference is kept by what replaces references of another make: the two differ
/// in their character `k`.
proof fn lemma_other_pattern(
    a: Seq<char>,
    other: Seq<char>,
    b: Seq<char>,
    pat: Seq<char>,
    with: Seq<char>,
    k: int,
)
    requires
        !a.contains('$'),
        other.len() > 0 && other[0] == '$',
        forall|i: int| 1 <= i < other.len() ==> #[trigger] other[i] != '$',
        pat.len() > 0 && pat[0] == '$',
        1 <= k < pat.len(),
        k < other.len(),
        pat[k] != other[k],
    ensures
        replaced(a + other + b, pat, with) == a + other + replaced(b, pat, with),
{
    let p = a + other;
    assert forall|i: int| 0 <= i < p.len() implies !pat.is_prefix_of(
        #[trigger] (p + b).skip(i),
    ) by {
        let t = (p + b).skip(i);
        if pat.is_prefix_of(t) {
            assert(t.subrange(0, pat.len() as int) == pat);
            assert(t[0] == pat[0]);
            assert(t[k] == pat[k]);
            assert(p[i] == '$');
            if i < a.len() {
                assert(a[i] == '$');
            } else if i > a.len() {
                assert(other[i - a.len()] == '$');
            } else {
                assert((p + b)[i + k] == other[k]);
            }
        }
    }
    lemma_kept(p, b, pat, with);
}

proof fn lemma_reference(name: Seq<char>, braced: bool)
    requires
        !name.contains('$'),
        name.len() > 0 && name[0] != '{',
    ensures
        reference(name, braced)[0] == '$',
        forall|i: int|
            1 <= i < reference(name, braced).len() ==> #[trigger] reference(name, braced)[i] != '$',
        reference(name, true) == "${"@ + name + "}"@,
        reference(name, false) == "$"@ + name,
        reference(name, true)[1] == '{',
        reference(name, false)[1] == name[0],
        reference(name, false).len() == name.len() + 1,
        reference(name, true).len() == name.len() + 3,
        forall|k: int| 0 <= k < name.len() ==> reference(name, false)[k + 1] == #[trigger] name[k],
        forall|k: int| 0 <= k < name.len() ==> reference(name, true)[k + 2] == #[trigger] name[k],
{
    lemma_marks();
    let r = reference(name, braced);
    assert forall|i: int| 1 <= i < r.len() implies #[trigger] r[i] != '$' by {
        if r[i] == '$' {
            if braced {
                if 2 <= i < 2 + name.len() {
                    assert(name[i - 2] == '$');
                }
            } else {
                assert(name[i - 1] == '$');
            }
        }
    }
}

/// A variable of another name leaves a reference as it is. The names differ in
/// their character `k`.
proof fn lemma_other_variable(
    a: Seq<char>,
    name: Seq<char>,
    braced: bool,
    b: Seq<char>,
    other: Seq<char>,
    value: Option<Seq<char>>,
    k: int,
)
    requires
        !a.contains('$') && !name.contains('$') && !other.contains('$'),
        0 <= k < name.len(),
        k < other.len(),
        name[k] != other[k],
        name[0] != '{' && other[0] != '{',
    ensures
        with_variable(a + reference(name, braced) + b, other, value) == a + reference(name, braced)
            + with_variable(b, other, value),
{
    match value {
        Some(v) => {
            let own = reference(name, braced);
            let plain = reference(other, false);
            let full = reference(other, true);
            lemma_reference(name, braced);
            lemma_reference(other, true);
            let c = replaced(b, plain, v);
            if braced {
                lemma_other_pattern(a, own, b, plain, v, 1);
                assert(full[k + 2] == other[k] && own[k + 2] == name[k]);
                lemma_other_pattern(a, own, c, full, v, k + 2);
            } else {
                assert(plain[k + 1] == other[k] && own[k + 1] == name[k]);
                lemma_other_pattern(a, own, b, plain, v, k + 1);
                lemma_other_pattern(a, own, c, full, v, 1);
            }
        },
        None => {},
    }
}

/// The variable that a reference names takes its place.
proof fn lemma_own_variable(
    a: Seq<char>,
    name: Seq<char>,
    braced: bool,
    b: Seq<char>,
    v: Seq<char>,
)
    requires
        !a.contains('$') && !name.contains('$') && !v.contains('$'),
        name.len() > 0,
        name[0] != '{',
    ensures
        with_variable(a + reference(name, braced) + b, name, Some(v)) == a + v + with_variable(
            b,
            name,
            Some(v),
        ),
        !(a + v).contains('$'),
{
    let plain = reference(name, false);
    let full = reference(name, true);
    lemma_reference(name, true);
    lemma_reference(name, false);
    assert(!(a + v).contains('$')) by {
        if (a + v).contains('$') {
            let i = choose|i: int| 0 <= i < (a + v).len() && (a + v)[i] == '$';
            if i < a.len() {
                assert(a[i] == '$');
            } else {
                assert(v[i - a.len()] == '$');
            }
        }
    }
    let c = replaced(b, plain, v);
    let behind = if braced {
        c
    } else {
        b
    };
    let pat = reference(name, braced);
    assert forall|i: int| 0 <= i < a.len() implies !pat.is_prefix_of(
        #[trigger] (a + pat + behind).skip(i),
    ) by {
        let t = (a + pat + behind).skip(i);
        if pat.is_prefix_of(t) {
            assert(t.subrange(0, pat.len() as int)[0] == t[0]);
            assert(a[i] == '$');
        }
    }
    law_the_first_match_is_replaced(a, pat, behind, v);
    if braced {
        lemma_other_pattern(a, full, b, plain, v, 1);
    } else {
        lemma_past(a + v, c, full, v);
    }
}

/// A dollar sign that does not refer to one of the variables stays, and so does
/// all of a path that has no other.
pub proof fn law_other_dollar_signs_stay(
    a: Seq<char>,
    b: Seq<char>,
    name: Seq<char>,
    value: Option<Seq<char>>,
)
    requires
        !a.contains('$') && !b.contains('$'),
        !name.is_prefix_of(b),
        !(seq!['{'] + name + seq!['}']).is_prefix_of(b),
    ensures
        with_variable(a + seq!['$'] + b, name, value) == a + seq!['$'] + b,
{
    lemma_marks();
    match value {
        Some(v) => {
            lemma_other_sign(a, b, name, v);
            lemma_other_sign(a, b, seq!['{'] + name + seq!['}'], v);
            assert("${"@ + name + "}"@ == seq!['$'] + (seq!['{'] + name + seq!['}']));
        },
        None => {},
    }
}

proof fn lemma_other_sign(a: Seq<char>, b: Seq<char>, tail: Seq<char>, v: Seq<char>)
    requires
        !a.contains('$') && !b.contains('$'),
        !tail.is_prefix_of(b),
    ensures
        replaced(a + seq!['$'] + b, seq!['$'] + tail, v) == a + seq!['$'] + b,
{
    let s = a + seq!['$'] + b;
    let pat = seq!['$'] + tail;
    assert forall|i: int| 0 <= i <= s.len() implies !pat.is_prefix_of(#[trigger] s.skip(i)) by {
        let t = s.skip(i);
        if pat.is_prefix_of(t) {
            assert(t.subrange(0, pat.len() as int) == pat);
            assert(pat[0] == '$');
            assert(t.subrange(0, pat.len() as int)[0] == t[0]);
            assert(s[i] == '$');
            if i < a.len() {
                assert(a[i] == '$');
            } else if i > a.len() {
                assert(b[i - a.len() - 1] == '$');
            } else {
                assert(b.subrange(0, tail.len() as int) == tail) by {
                    assert forall|j: int| 0 <= j < tail.len() implies b[j] == tail[j] by {
                        assert(t[j + 1] == pat[j + 1]);
                    }
                }
            }
        }
    }
    law_nothing_to_replace(s, pat, v);
}

proof fn lemma_names()
    ensures
        "HOME"@ == seq!['H', 'O', 'M', 'E'],
        "XDG_CONFIG_HOME"@.len() == 15 && "XDG_CONFIG_HOME"@[0] == 'X' && "XDG_CONFIG_HOME"@[4]
            == 'C' && "XDG_CONFIG_HOME"@[5] == 'O' && !"XDG_CONFIG_HOME"@.contains('$'),
        "XDG_DATA_HOME"@.len() == 13 && "XDG_DATA_HOME"@[0] == 'X' && "XDG_DATA_HOME"@[4] == 'D'
            && !"XDG_DATA_HOME"@.contains('$'),
        "XDG_STATE_HOME"@.len() == 14 && "XDG_STATE_HOME"@[0] == 'X' && "XDG_STATE_HOME"@[4] == 'S'
            && !"XDG_STATE_HOME"@.contains('$'),
        "XDG_CACHE_HOME"@.len() == 14 && "XDG_CACHE_HOME"@[0] == 'X' && "XDG_CACHE_HOME"@[4] == 'C'
            && "XDG_CACHE_HOME"@[5] == 'A' && !"XDG_CACHE_HOME"@.contains('$'),
        "XDG_RUNTIME_DIR"@.len() == 15 && "XDG_RUNTIME_DIR"@[0] == 'X' && "XDG_RUNTIME_DIR"@[4]
            == 'R' && !"XDG_RUNTIME_DIR"@.contains('$'),
{
    reveal_strlit("HOME");
    reveal_strlit("XDG_CONFIG_HOME");
    reveal_strlit("XDG_DATA_HOME");
    reveal_strlit("XDG_STATE_HOME");
    reveal_strlit("XDG_CACHE_HOME");
    reveal_strlit("XDG_RUNTIME_DIR");
}

/// A reference to `HOME` in the path of a log file, in braces or not, gives way to
/// the value of that variable, and without a value it stays; what comes behind it is
/// gone on with.
pub proof fn law_home_is_replaced(
    a: Seq<char>,
    braced: bool,
    b: Seq<char>,
    env: EnvironmentView,
    v: Seq<char>,
)
    requires
        !a.contains('$') && !v.contains('$'),
    ensures
        as_text(env.home) == Some(v) ==> with_variables(
            a + reference("HOME"@, braced) + b,
            env,
        ) == a + v + with_variables(b, env),
        as_text(env.home) is None ==> with_variables(
            a + reference("HOME"@, braced) + b,
            env,
        ) == a + reference("HOME"@, braced) + with_variables(b, env),
{
    lemma_names();
    let b0 = b;
    lemma_own_variable(a, "HOME"@, braced, b0, v);
    let b1 = with_variable(b0, "HOME"@, as_text(env.home));
    lemma_other_variable(
        a,
        "HOME"@,
        braced,
        b1,
        "XDG_CONFIG_HOME"@,
        as_text(env.xdg_config_home),
        0,
    );
    lemma_variable_past(a + v, b1, "XDG_CONFIG_HOME"@, as_text(env.xdg_config_home));
    let b2 = with_variable(b1, "XDG_CONFIG_HOME"@, as_text(env.xdg_config_home));
    lemma_other_variable(a, "HOME"@, braced, b2, "XDG_DATA_HOME"@, as_text(env.xdg_data_home), 0);
    lemma_variable_past(a + v, b2, "XDG_DATA_HOME"@, as_text(env.xdg_data_home));
    let b3 = with_variable(b2, "XDG_DATA_HOME"@, as_text(env.xdg_data_home));
    lemma_other_variable(a, "HOME"@, braced, b3, "XDG_STATE_HOME"@, as_text(env.xdg_state_home), 0);
    lemma_variable_past(a + v, b3, "XDG_STATE_HOME"@, as_text(env.xdg_state_home));
    let b4 = with_variable(b3, "XDG_STATE_HOME"@, as_text(env.xdg_state_home));
    lemma_other_variable(a, "HOME"@, braced, b4, "XDG_CACHE_HOME"@, as_text(env.xdg_cache_home), 0);
    lemma_variable_past(a + v, b4, "XDG_CACHE_HOME"@, as_text(env.xdg_cache_home));
    let b5 = with_variable(b4, "XDG_CACHE_HOME"@, as_text(env.xdg_cache_home));
    lemma_other_variable(
        a,
        "HOME"@,
        braced,
        b5,
        "XDG_RUNTIME_DIR"@,
        as_text(env.xdg_runtime_dir),
        0,
    );
    lemma_variable_past(a + v, b5, "XDG_RUNTIME_DIR"@, as_text(env.xdg_runtime_dir));
}

/// A reference to `XDG_CONFIG_HOME` in the path of a log file, in braces or not, gives way to
/// the value of that variable, and without a value it stays; what comes behind it is
/// gone on with.
pub proof fn law_xdg_config_home_is_replaced(
    a: Seq<char>,
    braced: bool,
    b: Seq<char>,
    env: EnvironmentView,
    v: Seq<char>,
)
    requires
        !a.contains('$') && !v.contains('$'),
    ensures
        as_text(env.xdg_config_home) == Some(v) ==> with_variables(
            a + reference("XDG_CONFIG_HOME"@, braced) + b,
            env,
        ) == a + v + with_variables(b, env),
        as_text(env.xdg_config_home) is None ==> with_variables(
            a + reference("XDG_CONFIG_HOME"@, braced) + b,
            env,
        ) == a + reference("XDG_CONFIG_HOME"@, braced) + with_variables(b, env),
{
    lemma_names();
    let b0 = b;
    lemma_other_variable(a, "XDG_CONFIG_HOME"@, braced, b0, "HOME"@, as_text(env.home), 0);
    let b1 = with_variable(b0, "HOME"@, as_text(env.home));
    lemma_own_variable(a, "XDG_CONFIG_HOME"@, braced, b1, v);
    let b2 = with_variable(b1, "XDG_CONFIG_HOME"@, as_text(env.xdg_config_home));
    lemma_other_variable(
        a,
        "XDG_CONFIG_HOME"@,
        braced,
        b2,
        "XDG_DATA_HOME"@,
        as_text(env.xdg_data_home),
        4,
    );
    lemma_variable_past(a + v, b2, "XDG_DATA_HOME"@, as_text(env.xdg_data_home));
    let b3 = with_variable(b2, "XDG_DATA_HOME"@, as_text(env.xdg_data_home));
    lemma_other_variable(
        a,
        "XDG_CONFIG_HOME"@,
        braced,
        b3,
        "XDG_STATE_HOME"@,
        as_text(env.xdg_state_home),
        4,
    );
    lemma_variable_past(a + v, b3, "XDG_STATE_HOME"@, as_text(env.xdg_state_home));
    let b4 = with_variable(b3, "XDG_STATE_HOME"@, as_text(env.xdg_state_home));
    lemma_other_variable(
        a,
        "XDG_CONFIG_HOME"@,
        braced,
        b4,
        "XDG_CACHE_HOME"@,
        as_text(env.xdg_cache_home),
        5,
    );
    lemma_variable_past(a + v, b4, "XDG_CACHE_HOME"@, as_text(env.xdg_cache_home));
    let b5 = with_variable(b4, "XDG_CACHE_HOME"@, as_text(env.xdg_cache_home));
    lemma_other_variable(
        a,
        "XDG_CONFIG_HOME"@,
        braced,
        b5,
        "XDG_RUNTIME_DIR"@,
        as_text(env.xdg_runtime_dir),
        4,
    );
    lemma_variable_past(a + v, b5, "XDG_RUNTIME_DIR"@, as_text(env.xdg_runtime_dir));
}

/// A reference to `XDG_DATA_HOME` in the path of a log file, in braces or not, gives way to
/// the value of that variable, and without a value it stays; what comes behind it is
/// gone on with.
pub proof fn law_xdg_data_home_is_replaced(
    a: Seq<char>,
    braced: bool,
    b: Seq<char>,
    env: EnvironmentView,
    v: Seq<char>,
)
    requires
        !a.contains('$') && !v.contains('$'),
    ensures
        as_text(env.xdg_data_home) == Some(v) ==> with_variables(
            a + reference("XDG_DATA_HOME"@, braced) + b,
            env,
        ) == a + v + with_variables(b, env),
        as_text(env.xdg_data_home) is None ==> with_variables(
            a + reference("XDG_DATA_HOME"@, braced) + b,
            env,
        ) == a + reference("XDG_DATA_HOME"@, braced) + with_variables(b, env),
{
    lemma_names();
    let b0 = b;
    lemma_other_variable(a, "XDG_DATA_HOME"@, braced, b0, "HOME"@, as_text(env.home), 0);
    let b1 = with_variable(b0, "HOME"@, as_text(env.home));
    lemma_other_variable(
        a,
        "XDG_DATA_HOME"@,
        braced,
        b1,
        "XDG_CONFIG_HOME"@,
        as_text(env.xdg_config_home),
        4,
    );
    let b2 = with_variable(b1, "XDG_CONFIG_HOME"@, as_text(env.xdg_config_home));
    lemma_own_variable(a, "XDG_DATA_HOME"@, braced, b2, v);
    let b3 = with_variable(b2, "XDG_DATA_HOME"@, as_text(env.xdg_data_home));
    lemma_other_variable(
        a,
        "XDG_DATA_HOME"@,
        braced,
        b3,
        "XDG_STATE_HOME"@,
        as_text(env.xdg_state_home),
        4,
    );
    lemma_variable_past(a + v, b3, "XDG_STATE_HOME"@, as_text(env.xdg_state_home));
    let b4 = with_variable(b3, "XDG_STATE_HOME"@, as_text(env.xdg_state_home));
    lemma_other_variable(
        a,
        "XDG_DATA_HOME"@,
        braced,
        b4,
        "XDG_CACHE_HOME"@,
        as_text(env.xdg_cache_home),
        4,
    );
    lemma_variable_past(a + v, b4, "XDG_CACHE_HOME"@, as_text(env.xdg_cache_home));
    let b5 = with_variable(b4, "XDG_CACHE_HOME"@, as_text(env.xdg_cache_home));
    lemma_other_variable(
        a,
        "XDG_DATA_HOME"@,
        braced,
        b5,
        "XDG_RUNTIME_DIR"@,
        as_text(env.xdg_runtime_dir),
        4,
    );
    lemma_variable_past(a + v, b5, "XDG_RUNTIME_DIR"@, as_text(env.xdg_runtime_dir));
}

/// A reference to `XDG_STATE_HOME` in the path of a log file, in braces or not, gives way to
/// the value of that variable, and without a value it stays; what comes behind it is
/// gone on with.
pub proof fn law_xdg_state_home_is_replaced(
    a: Seq<char>,
    braced: bool,
    b: Seq<char>,
    env: EnvironmentView,
    v: Seq<char>,
)
    requires
        !a.contains('$') && !v.contains('$'),
    ensures
        as_text(env.xdg_state_home) == Some(v) ==> with_variables(
            a + reference("XDG_STATE_HOME"@, braced) + b,
            env,
        ) == a + v + with_variables(b, env),
        as_text(env.xdg_state_home) is None ==> with_variables(
            a + reference("XDG_STATE_HOME"@, braced) + b,
            env,
        ) == a + reference("XDG_STATE_HOME"@, braced) + with_variables(b, env),
{
    lemma_names();
    let b0 = b;
    lemma_other_variable(a, "XDG_STATE_HOME"@, braced, b0, "HOME"@, as_text(env.home), 0);
    let b1 = with_variable(b0, "HOME"@, as_text(env.home));
    lemma_other_variable(
        a,
        "XDG_STATE_HOME"@,
        braced,
        b1,
        "XDG_CONFIG_HOME"@,
        as_text(env.xdg_config_home),
        4,
    );
    let b2 = with_variable(b1, "XDG_CONFIG_HOME"@, as_text(env.xdg_config_home));
    lemma_other_variable(
        a,
        "XDG_STATE_HOME"@,
        braced,
        b2,
        "XDG_DATA_HOME"@,
        as_text(env.xdg_data_home),
        4,
    );
    let b3 = with_variable(b2, "XDG_DATA_HOME"@, as_text(env.xdg_data_home));
    lemma_own_variable(a, "XDG_STATE_HOME"@, braced, b3, v);
    let b4 = with_variable(b3, "XDG_STATE_HOME"@, as_text(env.xdg_state_home));
    lemma_other_variable(
        a,
        "XDG_STATE_HOME"@,
        braced,
        b4,
        "XDG_CACHE_HOME"@,
        as_text(env.xdg_cache_home),
        4,
    );
    lemma_variable_past(a + v, b4, "XDG_CACHE_HOME"@, as_text(env.xdg_cache_home));
    let b5 = with_variable(b4, "XDG_CACHE_HOME"@, as_text(env.xdg_cache_home));
    lemma_other_variable(
        a,
        "XDG_STATE_HOME"@,
        braced,
        b5,
        "XDG_RUNTIME_DIR"@,
        as_text(env.xdg_runtime_dir),
        4,
    );
    lemma_variable_past(a + v, b5, "XDG_RUNTIME_DIR"@, as_text(env.xdg_runtime_dir));
}

/// A reference to `XDG_CACHE_HOME` in the path of a log file, in braces or not, gives way to
/// the value of that variable, and without a value it stays; what comes behind it is
/// gone on with.
pub proof fn law_xdg_cache_home_is_replaced(
    a: Seq<char>,
    braced: bool,
    b: Seq<char>,
    env: EnvironmentView,
    v: Seq<char>,
)
    requires
        !a.contains('$') && !v.contains('$'),
    ensures
        as_text(env.xdg_cache_home) == Some(v) ==> with_variables(
            a + reference("XDG_CACHE_HOME"@, braced) + b,
            env,
        ) == a + v + with_variables(b, env),
        as_text(env.xdg_cache_home) is None ==> with_variables(
            a + reference("XDG_CACHE_HOME"@, braced) + b,
            env,
        ) == a + reference("XDG_CACHE_HOME"@, braced) + with_variables(b, env),
{
    lemma_names();
    let b0 = b;
    lemma_other_variable(a, "XDG_CACHE_HOME"@, braced, b0, "HOME"@, as_text(env.home), 0);
    let b1 = with_variable(b0, "HOME"@, as_text(env.home));
    lemma_other_variable(
        a,
        "XDG_CACHE_HOME"@,
        braced,
        b1,
        "XDG_CONFIG_HOME"@,
        as_text(env.xdg_config_home),
        5,
    );
    let b2 = with_variable(b1, "XDG_CONFIG_HOME"@, as_text(env.xdg_config_home));
    lemma_other_variable(
        a,
        "XDG_CACHE_HOME"@,
        braced,
        b2,
        "XDG_DATA_HOME"@,
        as_text(env.xdg_data_home),
        4,
    );
    let b3 = with_variable(b2, "XDG_DATA_HOME"@, as_text(env.xdg_data_home));
    lemma_other_variable(
        a,
        "XDG_CACHE_HOME"@,
        braced,
        b3,
        "XDG_STATE_HOME"@,
        as_text(env.xdg_state_home),
        4,
    );
    let b4 = with_variable(b3, "XDG_STATE_HOME"@, as_text(env.xdg_state_home));
    lemma_own_variable(a, "XDG_CACHE_HOME"@, braced, b4, v);
    let b5 = with_variable(b4, "XDG_CACHE_HOME"@, as_text(env.xdg_cache_home));
    lemma_other_variable(
        a,
        "XDG_CACHE_HOME"@,
        braced,
        b5,
        "XDG_RUNTIME_DIR"@,
        as_text(env.xdg_runtime_dir),
        4,
    );
    lemma_variable_past(a + v, b5, "XDG_RUNTIME_DIR"@, as_text(env.xdg_runtime_dir));
}

/// A reference to `XDG_RUNTIME_DIR` in the path of a log file, in braces or not, gives way to
/// the value of that variable, and without a value it stays; what comes behind it is
/// gone on with.
pub proof fn law_xdg_runtime_dir_is_replaced(
    a: Seq<char>,
    braced: bool,
    b: Seq<char>,
    env: EnvironmentView,
    v: Seq<char>,
)
    requires
        !a.contains('$') && !v.contains('$'),
    ensures
        as_text(env.xdg_runtime_dir) == Some(v) ==> with_variables(
            a + reference("XDG_RUNTIME_DIR"@, braced) + b,
            env,
        ) == a + v + with_variables(b, env),
        as_text(env.xdg_runtime_dir) is None ==> with_variables(
            a + reference("XDG_RUNTIME_DIR"@, braced) + b,
            env,
        ) == a + reference("XDG_RUNTIME_DIR"@, braced) + with_variables(b, env),
{
    lemma_names();
    let b0 = b;
    lemma_other_variable(a, "XDG_RUNTIME_DIR"@, braced, b0, "HOME"@, as_text(env.home), 0);
    let b1 = with_variable(b0, "HOME"@, as_text(env.home));
    lemma_other_variable(
        a,
        "XDG_RUNTIME_DIR"@,
        braced,
        b1,
        "XDG_CONFIG_HOME"@,
        as_text(env.xdg_config_home),
        4,
    );
    let b2 = with_variable(b1, "XDG_CONFIG_HOME"@, as_text(env.xdg_config_home));
    lemma_other_variable(
        a,
        "XDG_RUNTIME_DIR"@,
        braced,
        b2,
        "XDG_DATA_HOME"@,
        as_text(env.xdg_data_home),
        4,
    );
    let b3 = with_variable(b2, "XDG_DATA_HOME"@, as_text(env.xdg_data_home));
    lemma_other_variable(
        a,
        "XDG_RUNTIME_DIR"@,
        braced,
        b3,
        "XDG_STATE_HOME"@,
        as_text(env.xdg_state_home),
        4,
    );
    let b4 = with_variable(b3, "XDG_STATE_HOME"@, as_text(env.xdg_state_home));
    lemma_other_variable(
        a,
        "XDG_RUNTIME_DIR"@,
        braced,
        b4,
        "XDG_CACHE_HOME"@,
        as_text(env.xdg_cache_home),
        4,
    );
    let b5 = with_variable(b4, "XDG_CACHE_HOME"@, as_text(env.xdg_cache_home));
    lemma_own_variable(a, "XDG_RUNTIME_DIR"@, braced, b5, v);
}

/// Without a description there is no log file; with one, it is the one that the
/// description names.
pub proof fn law_described_logs(description: Seq<char>, env: EnvironmentView)
    ensures
        described_log(None, env) is None,
        described_log(Some(description), env) == logfile_path(description, env),
{
}

} // verus!
