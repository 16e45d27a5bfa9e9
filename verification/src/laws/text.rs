//! What the operations on text yield for text of a given make.

use vstd::prelude::*;

use crate::text::{
    after_prefix, back_run_len, decimal, joined, last_of, leading, leading_number,
    lemma_first_index_is, lemma_run_len_is, lines, replaced, trim, trim_back, trim_front,
    white_space, Class,
};

verus! {

/// White space is these characters and no others: tab, line feed, vertical tab,
/// form feed, carriage return, space, next line, no-break space, and the spaces
/// and separators of other scripts.
pub proof fn law_white_space_characters(c: char)
    ensures
        white_space(c) <==> seq![
            '\t',
            '\n',
            '\u{b}',
            '\u{c}',
            '\r',
            ' ',
            '\u{85}',
            '\u{a0}',
            '\u{1680}',
            '\u{2000}',
            '\u{2001}',
            '\u{2002}',
            '\u{2003}',
            '\u{2004}',
            '\u{2005}',
            '\u{2006}',
            '\u{2007}',
            '\u{2008}',
            '\u{2009}',
            '\u{200a}',
            '\u{2028}',
            '\u{2029}',
            '\u{202f}',
            '\u{205f}',
            '\u{3000}',
        ].contains(c),
{
    let all = seq![
        '\t',
        '\n',
        '\u{b}',
        '\u{c}',
        '\r',
        ' ',
        '\u{85}',
        '\u{a0}',
        '\u{1680}',
        '\u{2000}',
        '\u{2001}',
        '\u{2002}',
        '\u{2003}',
        '\u{2004}',
        '\u{2005}',
        '\u{2006}',
        '\u{2007}',
        '\u{2008}',
        '\u{2009}',
        '\u{200a}',
        '\u{2028}',
        '\u{2029}',
        '\u{202f}',
        '\u{205f}',
        '\u{3000}',
    ];
    if white_space(c) {
        let u = c as u32;
        let i: int = if u <= 0xd {
            u - 9
        } else if u == 0x20 {
            5
        } else if u == 0x85 {
            6
        } else if u == 0xa0 {
            7
        } else if u == 0x1680 {
            8
        } else if u <= 0x200a {
            9 + u - 0x2000
        } else if u == 0x2028 {
            20
        } else if u == 0x2029 {
            21
        } else if u == 0x202f {
            22
        } else if u == 0x205f {
            23
        } else {
            24
        };
        assert(all[i] == c);
    }
    if all.contains(c) {
        let i = choose|i: int| 0 <= i < all.len() && all[i] == c;
        assert(white_space(all[i]));
    }
}

/// A word is what is not white space, a digit is one of the ten, and a quotation
/// mark is the double one.
pub proof fn law_classes(c: char)
    ensures
        Class::Space.holds(c) <==> white_space(c),
        Class::Word.holds(c) <==> !white_space(c),
        Class::Digit.holds(c) <==> (c == '0' || c == '1' || c == '2' || c == '3' || c == '4' || c
            == '5' || c == '6' || c == '7' || c == '8' || c == '9'),
        Class::Quote.holds(c) <==> c == '"',
{
}

/// Whether all of a text is in a class.
pub open spec fn all_in(s: Seq<char>, class: Class) -> bool {
    forall|i: int| 0 <= i < s.len() ==> class.holds(#[trigger] s[i])
}

/// What is trimmed off the front of a text is all that stands there of the class.
pub proof fn law_trim_front_of(front: Seq<char>, core: Seq<char>, class: Class)
    requires
        all_in(front, class),
        core.len() > 0 ==> !class.holds(core[0]),
    ensures
        trim_front(front + core, class) == core,
        leading(front + core, class) == front,
{
    let t = front + core;
    assert forall|i: int| 0 <= i < front.len() implies class.holds(#[trigger] t[i]) by {
        assert(t[i] == front[i]);
    }
    if core.len() > 0 {
        assert(t[front.len() as int] == core[0]);
    }
    lemma_run_len_is(t, class, front.len());
    assert(t.skip(front.len() as int) == core);
    assert(t.take(front.len() as int) == front);
}

proof fn lemma_back_run_len_of(core: Seq<char>, back: Seq<char>, class: Class)
    requires
        all_in(back, class),
        core.len() > 0 ==> !class.holds(core.last()),
    ensures
        back_run_len(core + back, class) == back.len(),
    decreases back.len(),
{
    let t = core + back;
    if back.len() > 0 {
        let b = back.drop_last();
        assert forall|i: int| 0 <= i < b.len() implies class.holds(#[trigger] b[i]) by {
            assert(b[i] == back[i]);
        }
        lemma_back_run_len_of(core, b, class);
        assert(t.drop_last() == core + b);
        assert(t.last() == back[back.len() - 1]);
    } else {
        assert(t == core);
    }
}

/// Trimming takes off all that stands at either end of a text of the class, and
/// nothing else.
pub proof fn law_trim_of(front: Seq<char>, core: Seq<char>, back: Seq<char>, class: Class)
    requires
        all_in(front, class),
        all_in(back, class),
        core.len() > 0 ==> !class.holds(core[0]) && !class.holds(core.last()),
    ensures
        trim(front + core + back, class) == core,
{
    let t = front + core + back;
    if core.len() > 0 {
        assert(t == front + (core + back));
        law_trim_front_of(front, core + back, class);
        lemma_back_run_len_of(core, back, class);
        assert((core + back).take(core.len() as int) == core);
    } else {
        assert forall|i: int| 0 <= i < t.len() implies class.holds(#[trigger] t[i]) by {
            if i < front.len() {
                assert(t[i] == front[i]);
            } else {
                assert(t[i] == back[i - front.len()]);
            }
        }
        let none = Seq::<char>::empty();
        assert(t + none == t);
        law_trim_front_of(t, none, class);
        assert(trim_back(none, class) == none);
    }
}

/// What follows a prefix is the rest, and only text that starts with the prefix
/// has such a rest.
pub proof fn law_prefix_and_rest(s: Seq<char>, prefix: Seq<char>, rest: Seq<char>)
    ensures
        after_prefix(s, prefix) == Some(rest) <==> s == prefix + rest,
        after_prefix(s, prefix) is None ==> s != prefix + rest,
{
    let t = prefix + rest;
    assert(t.subrange(0, prefix.len() as int) == prefix);
    assert(t.skip(prefix.len() as int) == rest);
    if after_prefix(s, prefix) == Some(rest) {
        assert(s =~= prefix + rest);
    }
}

/// Whether a text has no line feed in it.
pub open spec fn on_one_line(s: Seq<char>) -> bool {
    forall|i: int| 0 <= i < s.len() ==> #[trigger] s[i] != '\n'
}

/// A line that ends with a line feed, or with a carriage return and a line feed,
/// comes out without either, before the lines of the rest. Of several carriage
/// returns only the last is taken for the end.
pub proof fn law_ended_lines_come_one_by_one(line: Seq<char>, rest: Seq<char>)
    requires
        on_one_line(line),
    ensures
        (line.len() > 0 ==> line.last() != '\r') ==> lines(line + seq!['\n'] + rest) == seq![line]
            + lines(rest),
        lines(line + seq!['\r', '\n'] + rest) == seq![line] + lines(rest),
{
    let s = line + seq!['\n'] + rest;
    let n = line.len();
    assert forall|i: int| 0 <= i < n implies #[trigger] s[i] != '\n' by {
        assert(s[i] == line[i]);
    }
    assert(s[n as int] == '\n');
    lemma_first_index_is(s, '\n', n);
    assert(s.take(n as int) == line);
    assert(s.skip(n as int + 1) == rest);

    let r = line + seq!['\r', '\n'] + rest;
    assert forall|i: int| 0 <= i < n + 1 implies #[trigger] r[i] != '\n' by {
        if i < n {
            assert(r[i] == line[i]);
        }
    }
    assert(r[n as int + 1] == '\n');
    lemma_first_index_is(r, '\n', n + 1);
    assert(r.take(n as int + 1) == line.push('\r'));
    assert(line.push('\r').drop_last() == line);
    assert(r.skip(n as int + 2) == rest);
}

/// A last line that does not end comes out as it is, and no text has no lines.
pub proof fn law_unended_lines_come_whole(line: Seq<char>)
    requires
        on_one_line(line),
    ensures
        line.len() > 0 ==> lines(line) == seq![line],
        line.len() == 0 ==> lines(line) == Seq::<Seq<char>>::empty(),
{
    lemma_first_index_is(line, '\n', line.len());
}

/// Lines are joined by a line feed between each and the next: none before the
/// first, none behind the last.
pub proof fn law_joined_lines(a: Seq<Seq<char>>, b: Seq<Seq<char>>, line: Seq<char>)
    ensures
        joined(Seq::<Seq<char>>::empty()) == Seq::<char>::empty(),
        joined(seq![line]) == line,
        a.len() > 0 && b.len() > 0 ==> joined(a + b) == joined(a) + seq!['\n'] + joined(b),
    decreases b.len(),
{
    if a.len() > 0 && b.len() > 0 {
        let c = b.drop_last();
        assert((a + b).drop_last() == a + c);
        assert((a + b).last() == b.last());
        if c.len() > 0 {
            law_joined_lines(a, c, line);
            assert(joined(a + b) == joined(a) + seq!['\n'] + joined(b));
        } else {
            assert(a + c == a);
        }
    }
}

/// Lines that are joined come out again, if none has a line end in it and the last
/// is not empty.
pub proof fn law_joined_lines_are_read_back(ls: Seq<Seq<char>>)
    requires
        forall|i: int|
            0 <= i < ls.len() ==> on_one_line(#[trigger] ls[i]) && (ls[i].len() > 0
                ==> ls[i].last() != '\r'),
        ls.len() > 0 ==> ls.last().len() > 0,
    ensures
        lines(joined(ls)) == ls,
    decreases ls.len(),
{
    if ls.len() == 1 {
        assert(on_one_line(ls[0]));
        law_unended_lines_come_whole(ls[0]);
        assert(seq![ls[0]] == ls);
    } else if ls.len() > 1 {
        let t = ls.drop_first();
        assert forall|i: int| 0 <= i < t.len() implies on_one_line(#[trigger] t[i]) && (t[i].len()
            > 0 ==> t[i].last() != '\r') by {
            assert(t[i] == ls[i + 1]);
        }
        assert(t.last() == ls.last());
        law_joined_lines_are_read_back(t);
        assert(on_one_line(ls[0]));
        law_joined_lines(seq![ls[0]], t, ls[0]);
        assert(seq![ls[0]] + t == ls);
        law_ended_lines_come_one_by_one(ls[0], joined(t));
    }
}

/// The last lines of a log are as many as asked for, or all of them if there are
/// fewer, and they are the ones at the end, in their order.
pub proof fn law_the_last_lines(ls: Seq<Seq<char>>, n: nat, i: int)
    ensures
        ls.len() >= n ==> last_of(ls, n).len() == n,
        ls.len() <= n ==> last_of(ls, n).len() == ls.len(),
        0 <= i < last_of(ls, n).len() ==> last_of(ls, n)[last_of(ls, n).len() - 1 - i]
            == ls[ls.len() - 1 - i],
{
}

/// Lines before those that are asked for do not matter.
pub proof fn law_earlier_lines_do_not_matter(
    before: Seq<Seq<char>>,
    shown: Seq<Seq<char>>,
)
    ensures
        last_of(before + shown, shown.len()) == shown,
{
    assert((before + shown).skip(before.len() as int) == shown);
}

/// Whether `pat` stands somewhere in `s`.
pub open spec fn occurs(pat: Seq<char>, s: Seq<char>) -> bool {
    exists|i: int| 0 <= i <= s.len() && pat.is_prefix_of(#[trigger] s.skip(i))
}

/// Text in which nothing is found to replace stays as it is.
pub proof fn law_nothing_to_replace(s: Seq<char>, pat: Seq<char>, with: Seq<char>)
    requires
        pat.len() > 0,
        !occurs(pat, s),
    ensures
        replaced(s, pat, with) == s,
    decreases s.len(),
{
    if s.len() >= pat.len() {
        assert(s.skip(0) == s);
        let t = s.skip(1);
        assert forall|i: int| 0 <= i <= t.len() implies !pat.is_prefix_of(
            #[trigger] t.skip(i),
        ) by {
            assert(t.skip(i) == s.skip(i + 1));
        }
        law_nothing_to_replace(t, pat, with);
        assert(seq![s[0]] + t == s);
    }
}

/// The first place where the pattern stands is replaced: what comes before stays,
/// and what comes behind is gone on with.
pub proof fn law_the_first_match_is_replaced(
    before: Seq<char>,
    pat: Seq<char>,
    behind: Seq<char>,
    with: Seq<char>,
)
    requires
        pat.len() > 0,
        forall|i: int|
            0 <= i < before.len() ==> !pat.is_prefix_of(
                #[trigger] (before + pat + behind).skip(i),
            ),
    ensures
        replaced(before + pat + behind, pat, with) == before + with + replaced(behind, pat, with),
    decreases before.len(),
{
    let s = before + pat + behind;
    if before.len() == 0 {
        assert(s == pat + behind);
        assert(s.subrange(0, pat.len() as int) == pat);
        assert(s.skip(pat.len() as int) == behind);
        assert(before + with == with);
    } else {
        let t = before.skip(1);
        assert(s.skip(0) == s);
        assert(!pat.is_prefix_of(s.skip(0)));
        assert(s.skip(1) == t + pat + behind);
        assert forall|i: int| 0 <= i < t.len() implies !pat.is_prefix_of(
            #[trigger] (t + pat + behind).skip(i),
        ) by {
            assert((t + pat + behind).skip(i) == s.skip(i + 1));
        }
        law_the_first_match_is_replaced(t, pat, behind, with);
        assert(seq![s[0]] + (t + with + replaced(behind, pat, with)) == before + with + replaced(
            behind,
            pat,
            with,
        ));
    }
}

/// The digit for a number below ten.
pub open spec fn digit(n: nat) -> char {
    if n == 0 {
        '0'
    } else if n == 1 {
        '1'
    } else if n == 2 {
        '2'
    } else if n == 3 {
        '3'
    } else if n == 4 {
        '4'
    } else if n == 5 {
        '5'
    } else if n == 6 {
        '6'
    } else if n == 7 {
        '7'
    } else if n == 8 {
        '8'
    } else {
        '9'
    }
}

/// A number as it is written.
pub open spec fn numeral(n: nat) -> Seq<char>
    decreases n,
{
    if n < 10 {
        seq![digit(n)]
    } else {
        numeral(n / 10).push(digit(n % 10))
    }
}

/// A number as it is written, with zeros before it, is digits that stand for it.
pub proof fn lemma_numeral(zeros: nat, n: nat)
    ensures
        numeral(n).len() > 0,
        all_in(Seq::new(zeros, |i: int| '0') + numeral(n), Class::Digit),
        decimal(Seq::new(zeros, |i: int| '0') + numeral(n)) == n,
    decreases n, zeros,
{
    let z = Seq::new(zeros, |i: int| '0');
    let s = z + numeral(n);
    if n >= 10 {
        let t = z + numeral(n / 10);
        lemma_numeral(zeros, n / 10);
        assert(s.drop_last() == t);
        assert(s.last() == digit(n % 10));
        assert(decimal(s) == decimal(t) * 10 + n % 10);
        assert forall|i: int| 0 <= i < s.len() implies Class::Digit.holds(#[trigger] s[i]) by {
            if i < t.len() {
                assert(s[i] == t[i]);
                assert(Class::Digit.holds(t[i]));
            }
        }
    } else {
        assert(s.last() == digit(n));
        assert(s.drop_last() == z);
        if zeros > 0 {
            let y = Seq::new((zeros - 1) as nat, |i: int| '0');
            lemma_numeral((zeros - 1) as nat, 0);
            assert(y + numeral(0) == z);
            assert(decimal(z) == 0);
        } else {
            assert(z == Seq::<char>::empty());
        }
        assert(decimal(s) == decimal(z) * 10 + n);
    }
}

/// A number that is written at the front of a text is read back, with zeros before
/// it or without, whatever follows but a digit; it is none if it does not fit in
/// 32 bits.
pub proof fn law_numbers_are_read_back(zeros: nat, n: nat, rest: Seq<char>)
    requires
        rest.len() > 0 ==> !Class::Digit.holds(rest[0]),
    ensures
        n <= 4_294_967_295 ==> leading_number(
            Seq::new(zeros, |i: int| '0') + numeral(n) + rest,
        ) == Some(n as u32),
        n > 4_294_967_295 ==> leading_number(
            Seq::new(zeros, |i: int| '0') + numeral(n) + rest,
        ) is None,
{
    lemma_numeral(zeros, n);
    law_trim_front_of(Seq::new(zeros, |i: int| '0') + numeral(n), rest, Class::Digit);
}

/// A text that does not start with a digit starts with no number.
pub proof fn law_no_digit_no_number(s: Seq<char>)
    requires
        s.len() > 0 ==> !Class::Digit.holds(s[0]),
    ensures
        leading_number(s) is None,
{
}

} // verus!
