//! What is read of the output of `dinitctl list`, line by line and byte by byte.

use vstd::prelude::*;
use vstd::utf8::*;

use crate::dinit::{listed_services, services_of, ServiceScope, ServiceView};
use crate::environment::EnvironmentView;
use crate::laws::text::{law_ended_lines_come_one_by_one, law_unended_lines_come_whole, on_one_line};
use crate::laws::{law_list_line_is_read_back, lemma_encode_concat};
use crate::listing::{lemma_after_ascii, list_entry, listed, marker_states, named_entry, without_lf};
use crate::text::{lemma_run_len, lines, white_space, Class};

verus! {

/// Whether a marker, of whatever length, has the character `c` as its byte `i`.
pub open spec fn shows(marker: Seq<u8>, i: int, c: char) -> bool {
    marker.len() > i && marker[i] == c as u8
}

/// A service that is starting is activating, whatever else its marker says.
pub proof fn law_starting_services(marker: Seq<u8>)
    requires
        shows(marker, 4, '<'),
    ensures
        marker_states(marker) == ("activating"@, "start"@),
{
}

/// A service that is stopping is deactivating, whatever else its marker says.
pub proof fn law_stopping_services(marker: Seq<u8>)
    requires
        shows(marker, 4, '>'),
    ensures
        marker_states(marker) == ("deactivating"@, "stop"@),
{
}

/// A service that is neither starting nor stopping has failed if its marker says
/// so, whether it is marked as running or not.
pub proof fn law_failed_services(marker: Seq<u8>)
    requires
        !shows(marker, 4, '<') && !shows(marker, 4, '>'),
        shows(marker, 7, 'X'),
    ensures
        marker_states(marker) == ("failed"@, "failed"@),
{
}

/// A service that is neither starting nor stopping and has not failed is running
/// if its marker says so.
pub proof fn law_running_services(marker: Seq<u8>)
    requires
        !shows(marker, 4, '<') && !shows(marker, 4, '>'),
        !shows(marker, 7, 'X'),
        shows(marker, 2, '+'),
    ensures
        marker_states(marker) == ("active"@, "running"@),
{
}

/// Every other service is inactive: one that was skipped, one that has stopped,
/// and one whose marker says nothing of these.
pub proof fn law_inactive_services(marker: Seq<u8>)
    requires
        !shows(marker, 4, '<') && !shows(marker, 4, '>'),
        !shows(marker, 7, 'X'),
        !shows(marker, 2, '+'),
    ensures
        marker_states(marker) == ("inactive"@, "dead"@),
{
}

/// Only three bytes of a marker count: two markers of the full width that agree in
/// these tell the same.
pub proof fn law_three_bytes_count(a: Seq<u8>, b: Seq<u8>)
    requires
        a.len() == 9 && b.len() == 9,
        a[2] == b[2] && a[4] == b[4] && a[7] == b[7],
    ensures
        marker_states(a) == marker_states(b),
{
}

/// Only a line with the frame is an entry: `[` as its first byte, `]` as its tenth
/// and a space as the next. One line feed at its end does not count.
pub proof fn law_only_framed_lines_are_entries(line: Seq<char>)
    ensures
        list_entry(line.push('\n')) is Some <==> ({
            let b = encode_utf8(line);
            b.len() >= 11 && b[0] == '[' as u8 && b[9] == ']' as u8 && b[10] == ' ' as u8
        }),
        (line.len() > 0 ==> line.last() != '\n') ==> list_entry(line) == list_entry(
            line.push('\n'),
        ),
{
    assert(line.push('\n').drop_last() == line);
}

/// What an entry tells is what stands in the line: the marker is at its front and
/// nine bytes wide, the name follows the frame, and behind the name the line is at
/// its end or goes on with white space.
pub proof fn law_entries_stand_in_their_lines(line: Seq<char>) -> (remarks: Seq<char>)
    requires
        list_entry(line.push('\n')) is Some,
    ensures
        ({
            let (marker, name) = list_entry(line.push('\n'))->0;
            &&& line == marker + seq![']', ' '] + name + remarks
            &&& encode_utf8(marker).len() == 9
            &&& forall|i: int| 0 <= i < name.len() ==> !white_space(#[trigger] name[i])
            &&& remarks.len() > 0 ==> white_space(remarks[0])
        }),
{
    broadcast use {encode_utf8_valid_utf8, encode_utf8_decode_utf8, decode_utf8_encode_utf8};

    let all = encode_utf8(line);
    assert(line.push('\n').drop_last() == line);
    assert(without_lf(line.push('\n')) == line);
    is_char_boundary_iff_not_is_continuation_byte(all, 9);
    is_char_boundary_iff_not_is_continuation_byte(all, 10);
    valid_utf8_split(all, 9);
    valid_utf8_split(all, 10);
    let front = all.subrange(0, 9);
    let rest = all.subrange(10, all.len() as int);
    assert(rest[0] == 32);
    lemma_after_ascii(rest);
    valid_utf8_split(rest, 1);
    let back = all.subrange(11, all.len() as int);
    assert(rest.subrange(1, rest.len() as int) == back);
    let marker = decode_utf8(front);
    let tail = decode_utf8(back);
    let frame = seq![']', ' '];
    is_ascii_chars_encode_utf8(frame);
    assert(encode_utf8(frame)[0] == frame[0] as u8);
    assert(encode_utf8(frame)[1] == frame[1] as u8);
    lemma_encode_concat(marker + frame, tail);
    lemma_encode_concat(marker, frame);
    assert(encode_utf8(marker + frame + tail) == all);
    assert(decode_utf8(all) == line);
    assert(decode_utf8(encode_utf8(marker + frame + tail)) == marker + frame + tail);
    assert(marker + frame + tail == line);
    lemma_run_len(tail, Class::Word);
    let (_, name) = list_entry(line.push('\n'))->0;
    let remarks = tail.skip(name.len() as int);
    assert(tail == name + remarks);
    assert(marker + frame + tail == marker + frame + name + remarks);
    assert forall|i: int| 0 <= i < name.len() implies !white_space(#[trigger] name[i]) by {
        assert(name[i] == tail[i]);
        assert(Class::Word.holds(tail[i]));
    }
    remarks
}

proof fn lemma_filter_map_first<A, B>(a: A, s: Seq<A>, f: spec_fn(A) -> Option<B>)
    ensures
        (seq![a] + s).filter_map(f) == (match f(a) {
            Some(b) => seq![b],
            None => Seq::empty(),
        }) + s.filter_map(f),
    decreases s.len(),
{
    let t = seq![a] + s;
    if s.len() == 0 {
        assert(t == seq![a]);
        Seq::lemma_filter_map_singleton(a, f);
        assert(s.filter_map(f) == Seq::<B>::empty());
    } else {
        lemma_filter_map_first(a, s.drop_last(), f);
        assert(t.drop_last() == seq![a] + s.drop_last());
        assert(t.last() == s.last());
        assert(t.filter_map(f) == (match f(a) {
            Some(b) => seq![b],
            None => Seq::empty(),
        }) + s.filter_map(f));
    }
}

proof fn lemma_listed_first(line: Seq<char>, rest: Seq<char>)
    requires
        on_one_line(line),
        line.len() > 0 ==> line.last() != '\r',
    ensures
        listed(line + seq!['\n'] + rest) == (match named_entry(line) {
            Some(e) => seq![e],
            None => Seq::empty(),
        }) + listed(rest),
        listed(line + seq!['\r', '\n'] + rest) == listed(line + seq!['\n'] + rest),
        listed(line) == (match named_entry(line) {
            Some(e) => seq![e],
            None => Seq::empty(),
        }),
{
    let f = |line: Seq<char>| named_entry(line);
    law_ended_lines_come_one_by_one(line, rest);
    lemma_filter_map_first(line, lines(rest), f);
    law_unended_lines_come_whole(line);
    Seq::lemma_filter_map_singleton(line, f);
    if line.len() == 0 {
        assert(lines(line).filter_map(f) == Seq::<(Seq<char>, Seq<char>)>::empty());
        reveal_with_fuel(encode_utf8, 1);
    }
}

/// Each line of a list in its frame and with a name tells of one service, with the
/// marker and the name that stand in it, before the services of the lines below.
/// The last line need not end.
pub proof fn law_framed_lines_are_listed(
    marker: Seq<char>,
    name: Seq<char>,
    remarks: Seq<char>,
    rest: Seq<char>,
)
    requires
        encode_utf8(marker).len() == 9,
        encode_utf8(marker)[0] == '[' as u8,
        on_one_line(marker),
        name.len() > 0,
        forall|i: int| 0 <= i < name.len() ==> !white_space(#[trigger] name[i]),
        on_one_line(remarks),
        remarks.len() > 0 ==> white_space(remarks[0]) && remarks.last() != '\r',
    ensures
        listed(marker + seq![']', ' '] + name + remarks + seq!['\n'] + rest) == seq![(marker, name)]
            + listed(rest),
        listed(marker + seq![']', ' '] + name + remarks + seq!['\r', '\n'] + rest) == seq![
            (marker, name),
        ] + listed(rest),
        listed(marker + seq![']', ' '] + name + remarks) == seq![(marker, name)],
{
    let frame = seq![']', ' '];
    let line = marker + frame + name + remarks;
    assert forall|i: int| 0 <= i < line.len() implies #[trigger] line[i] != '\n' by {
        let n = marker.len() as int;
        let k = name.len() as int;
        if i < n {
            assert(line[i] == marker[i]);
        } else if i < n + 2 {
            assert(line[i] == frame[i - n]);
        } else if i < n + 2 + k {
            assert(line[i] == name[i - n - 2]);
        } else {
            assert(line[i] == remarks[i - n - 2 - k]);
        }
    }
    if remarks.len() == 0 {
        assert(line.last() == name[name.len() - 1]);
    } else {
        assert(line.last() == remarks.last());
    }
    law_list_line_is_read_back(marker, name, remarks);
    lemma_listed_first(line, rest);
}

/// A line that is not in the frame tells of no service, and those of the lines
/// below are told as if it were not there.
pub proof fn law_unframed_lines_are_passed_over(line: Seq<char>, rest: Seq<char>)
    requires
        on_one_line(line),
        line.len() > 0 ==> line.last() != '\r',
        ({
            let b = encode_utf8(line);
            b.len() < 11 || b[0] != '[' as u8 || b[9] != ']' as u8 || b[10] != ' ' as u8
        }),
    ensures
        listed(line + seq!['\n'] + rest) == listed(rest),
        listed(line + seq!['\r', '\n'] + rest) == listed(rest),
        listed(line) == Seq::<(Seq<char>, Seq<char>)>::empty(),
{
    if line.len() > 0 {
        assert(line[line.len() - 1] != '\n');
    }
    lemma_listed_first(line, rest);
}

/// A line in the frame without a name tells of no service either.
pub proof fn law_nameless_lines_are_passed_over(
    marker: Seq<char>,
    remarks: Seq<char>,
    rest: Seq<char>,
)
    requires
        encode_utf8(marker).len() == 9,
        encode_utf8(marker)[0] == '[' as u8,
        on_one_line(marker),
        on_one_line(remarks),
        remarks.len() > 0 ==> white_space(remarks[0]) && remarks.last() != '\r',
    ensures
        listed(marker + seq![']', ' '] + remarks + seq!['\n'] + rest) == listed(rest),
        listed(marker + seq![']', ' '] + remarks + seq!['\r', '\n'] + rest) == listed(rest),
        listed(marker + seq![']', ' '] + remarks) == Seq::<(Seq<char>, Seq<char>)>::empty(),
{
    let frame = seq![']', ' '];
    let none = Seq::<char>::empty();
    let line = marker + frame + remarks;
    assert(marker + frame + none + remarks == line);
    assert forall|i: int| 0 <= i < line.len() implies #[trigger] line[i] != '\n' by {
        let n = marker.len() as int;
        if i < n {
            assert(line[i] == marker[i]);
        } else if i < n + 2 {
            assert(line[i] == frame[i - n]);
        } else {
            assert(line[i] == remarks[i - n - 2]);
        }
    }
    if remarks.len() == 0 {
        assert(line.last() == ' ');
    } else {
        assert(line.last() == remarks.last());
    }
    law_list_line_is_read_back(marker, none, remarks);
    lemma_listed_first(line, rest);
}

/// No output lists no services.
pub proof fn law_no_output_lists_nothing()
    ensures
        listed(Seq::<char>::empty()) == Seq::<(Seq<char>, Seq<char>)>::empty(),
{
    law_unended_lines_come_whole(Seq::<char>::empty());
}

/// Each service is shown with the states that its own marker tells.
pub proof fn law_services_show_the_states_of_their_markers(
    output: Seq<char>,
    scope: ServiceScope,
    env: EnvironmentView,
    existing: Seq<Seq<u8>>,
    files: Seq<Seq<char>>,
    i: int,
)
    requires
        0 <= i < listed(output).len(),
    ensures
        ({
            let s = listed_services(output, scope, env, existing, files)[i];
            let marker = encode_utf8(listed(output)[i].0);
            &&& s.name == listed(output)[i].1
            &&& (s.active_state, s.sub_state) == marker_states(marker)
            &&& shows(marker, 4, '<') ==> s.active_state == "activating"@
            &&& shows(marker, 4, '>') ==> s.active_state == "deactivating"@
        }),
{
}

/// What is listed is what the output shows; where there is no output, the reason
/// is handed on as it is.
pub proof fn law_listings_are_handed_on(
    output: Seq<char>,
    scope: ServiceScope,
    env: EnvironmentView,
    existing: Seq<Seq<u8>>,
    files: Seq<Seq<char>>,
)
    ensures
        services_of(Ok(output), scope, env, existing, files) == Ok::<Seq<ServiceView>, Seq<char>>(
            listed_services(output, scope, env, existing, files),
        ),
        services_of(Err(output), scope, env, existing, files) == Err::<
            Seq<ServiceView>,
            Seq<char>,
        >(output),
{
}

} // verus!
