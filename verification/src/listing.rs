//! The output of `dinitctl list`: one line per loaded service.
//!
//! ```text
//! [{+}     ] boot
//! [[+]     ] xdg-user-dirs
//! [     {-}] xdm (exit status: 1)
//! [     {X}] broken
//! [{ <<   }] starting-service
//! [{  >>  }] stopping-service
//! ```

use vstd::prelude::*;
use vstd::string::*;
use vstd::utf8::*;

use crate::text::{chars, leading, leading_run, lines, split_lines, Class};

verus! {

/// A line without the line feed at its end, if it has one.
pub open spec fn without_lf(line: Seq<char>) -> Seq<char> {
    if line.len() > 0 && line.last() == '\n' {
        line.drop_last()
    } else {
        line
    }
}

/// Whether bytes have the frame of a line of the list: `[`, eight bytes of state,
/// `]` and a space.
pub open spec fn framed(bytes: Seq<u8>) -> bool {
    &&& bytes.len() >= 11
    &&& bytes[0] == 91
    &&& bytes[9] == 93
    &&& bytes[10] == 32
}

/// What one line of the list says: its marker, which is the first nine bytes with
/// the opening bracket, and the name of the service, which is the word behind
/// the frame. What may follow the name, such as an exit status, is left out.
pub open spec fn list_entry(line: Seq<char>) -> Option<(Seq<char>, Seq<char>)> {
    let bytes = encode_utf8(without_lf(line));
    if framed(bytes) {
        Some(
            (
                decode_utf8(bytes.subrange(0, 9)),
                leading(decode_utf8(bytes.subrange(11, bytes.len() as int)), Class::Word),
            ),
        )
    } else {
        None
    }
}

/// The value of an optional pair of texts.
pub open spec fn opt_texts(p: Option<(&str, &str)>) -> Option<(Seq<char>, Seq<char>)> {
    match p {
        Some((a, b)) => Some((a@, b@)),
        None => None,
    }
}

/// Parses one line of `dinitctl list` output into its marker and the name of the
/// service.
///
/// The marker is of fixed width:
///   byte 0: `[`
///   byte 1: `[` marked active, `{` target started, or a space
///   byte 2: `+` running, `s` skipped, or a space
///   byte 3: `]` marked active, `}` target started, or a space
///   bytes 4 and 5: `<<` starting, `>>` stopping, or spaces
///   byte 6: `{` target stopped, or a space
///   byte 7: `X` failed, `-` stopped, or a space
///   byte 8: `}` target stopped, or a space
/// A `]` and a space close it. Then follow the name and, after a space, remarks
/// such as `(pid: 7)`, `(exit status: 1)` or `(skipped)`.
pub fn parse_list_line<'a>(line: &'a str) -> (entry: Option<(&'a str, &'a str)>)
    ensures
        opt_texts(entry) == list_entry(line@),
{
    broadcast use {encode_utf8_valid_utf8, encode_utf8_decode_utf8};

    let cs = chars(line);
    let n = cs.len();
    let body: &'a str = if n > 0 && cs[n - 1] == '\n' {
        line.substring_char(0, n - 1)
    } else {
        line
    };
    assert(body@ == without_lf(line@));
    let bytes = body.as_bytes();
    let ghost all = encode_utf8(body@);
    if bytes.len() < 11 || bytes[0] != 91 || bytes[9] != 93 || bytes[10] != 32 {
        return None;
    }
    proof {
        is_char_boundary_iff_not_is_continuation_byte(all, 9);
        is_char_boundary_iff_not_is_continuation_byte(all, 10);
    }
    let (marker, _) = body.split_at(9);
    let (_, tail) = body.split_at(10);
    let ghost rest = encode_utf8(tail@);
    assert(rest == all.subrange(10, all.len() as int));
    assert(rest[0] == 32);
    proof {
        lemma_after_ascii(rest);
    }
    let (_, after) = tail.split_at(1);
    assert(encode_utf8(after@) == all.subrange(11, all.len() as int));
    Some((marker, leading_run(after, Class::Word)))
}

/// Behind a leading ASCII byte a character begins, or the text ends.
pub proof fn lemma_after_ascii(bytes: Seq<u8>)
    requires
        valid_utf8(bytes),
        bytes.len() > 0,
        bytes[0] < 128,
    ensures
        is_char_boundary(bytes, 1),
{
    reveal_with_fuel(is_char_boundary, 2);
    assert(length_of_first_scalar(bytes) == 1);
    assert(valid_utf8(pop_first_scalar(bytes)));
}

/// Whether byte `i` is there and is `b`.
pub open spec fn byte_is(bytes: Seq<u8>, i: int, b: u8) -> bool {
    i < bytes.len() && bytes[i] == b
}

/// What the bytes of a marker say of a service: its active state and its sub
/// state. A transition that is under way counts first, then failure, then
/// whether the service runs.
pub open spec fn marker_states(marker: Seq<u8>) -> (Seq<char>, Seq<char>) {
    if byte_is(marker, 4, 60) {
        ("activating"@, "start"@)
    } else if byte_is(marker, 4, 62) {
        ("deactivating"@, "stop"@)
    } else if byte_is(marker, 7, 88) {
        ("failed"@, "failed"@)
    } else if byte_is(marker, 2, 43) {
        ("active"@, "running"@)
    } else {
        ("inactive"@, "dead"@)
    }
}

fn has_byte(bytes: &[u8], i: usize, b: u8) -> (r: bool)
    ensures
        r == byte_is(bytes@, i as int, b),
{
    i < bytes.len() && bytes[i] == b
}

/// Turns a marker of the list into an active state and a sub state.
pub fn classify_states(marker: &str) -> (states: (&'static str, &'static str))
    ensures
        (states.0@, states.1@) == marker_states(encode_utf8(marker@)),
{
    let b = marker.as_bytes();
    if has_byte(b, 4, 60) {
        ("activating", "start")
    } else if has_byte(b, 4, 62) {
        ("deactivating", "stop")
    } else if has_byte(b, 7, 88) {
        ("failed", "failed")
    } else if has_byte(b, 2, 43) {
        ("active", "running")
    } else {
        ("inactive", "dead")
    }
}

/// What one line says of a service that has a name.
pub open spec fn named_entry(line: Seq<char>) -> Option<(Seq<char>, Seq<char>)> {
    match list_entry(line) {
        Some(e) => if e.1.len() > 0 {
            Some(e)
        } else {
            None
        },
        None => None,
    }
}

/// The marker and the name of each service that a list shows, in its order. Lines
/// of another form are passed over.
pub open spec fn listed(output: Seq<char>) -> Seq<(Seq<char>, Seq<char>)> {
    lines(output).filter_map(|line: Seq<char>| named_entry(line))
}

/// The values of a list of pairs of texts.
pub open spec fn texts(v: Seq<(&str, &str)>) -> Seq<(Seq<char>, Seq<char>)> {
    Seq::new(v.len(), |i: int| (v[i].0@, v[i].1@))
}

/// The marker and the name of each service that a list shows.
pub fn parse_list<'a>(output: &'a str) -> (entries: Vec<(&'a str, &'a str)>)
    ensures
        texts(entries@) == listed(output@),
{
    let ls = split_lines(output);
    let ghost all = lines(output@);
    let ghost f = |line: Seq<char>| named_entry(line);
    let mut entries: Vec<(&'a str, &'a str)> = Vec::new();
    let mut i: usize = 0;
    assert(all.take(0) == Seq::<Seq<char>>::empty());
    reveal_with_fuel(Seq::filter_map, 1);
    while i < ls.len()
        invariant
            ls.deep_view() == all,
            i <= ls@.len(),
            texts(entries@) == all.take(i as int).filter_map(f),
            f == (|line: Seq<char>| named_entry(line)),
        decreases ls@.len() - i,
    {
        let ghost before = texts(entries@);
        proof {
            assert(all[i as int] == ls@[i as int]@);
            all.lemma_filter_map_take_succ(f, i as int);
        }
        match parse_list_line(ls[i]) {
            Some((marker, name)) => {
                if !name.is_empty() {
                    entries.push((marker, name));
                    assert(texts(entries@) == before.push((marker@, name@)));
                }
            },
            None => {},
        }
        i += 1;
    }
    assert(all.take(all.len() as int) == all);
    entries
}

} // verus!
