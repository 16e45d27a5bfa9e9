//! Characters, words and lines of text.
//!
//! Text is modelled as `Seq<char>`. Each operation has a spec function that says
//! what it yields, and an executable function that works on `&str`.

use vstd::prelude::*;
use vstd::string::*;

verus! {

/// The kinds of characters that the formats read here distinguish.
#[derive(Debug, Clone, Copy, PartialEq, Eq, Structural)]
pub enum Class {
    /// Unicode white space.
    Space,
    /// Anything but white space.
    Word,
    /// An ASCII decimal digit.
    Digit,
    /// The double quotation mark.
    Quote,
}

/// The characters with the Unicode property `White_Space`.
pub open spec fn white_space(c: char) -> bool {
    let u = c as u32;
    ||| 0x9 <= u <= 0xd
    ||| u == 0x20
    ||| u == 0x85
    ||| u == 0xa0
    ||| u == 0x1680
    ||| 0x2000 <= u <= 0x200a
    ||| u == 0x2028
    ||| u == 0x2029
    ||| u == 0x202f
    ||| u == 0x205f
    ||| u == 0x3000
}

impl Class {
    pub open spec fn holds(self, c: char) -> bool {
        match self {
            Class::Space => white_space(c),
            Class::Word => !white_space(c),
            Class::Digit => 48 <= c as u32 <= 57,
            Class::Quote => c == '"',
        }
    }

    /// Whether `c` belongs to the class.
    pub fn contains(self, c: char) -> (b: bool)
        ensures
            b == self.holds(c),
    {
        let u: u32 = c as u32;
        let space = (0x9 <= u && u <= 0xd) || u == 0x20 || u == 0x85 || u == 0xa0 || u == 0x1680
            || (0x2000 <= u && u <= 0x200a) || u == 0x2028 || u == 0x2029 || u == 0x202f
            || u == 0x205f || u == 0x3000;
        match self {
            Class::Space => space,
            Class::Word => !space,
            Class::Digit => 48 <= u && u <= 57,
            Class::Quote => c == '"',
        }
    }
}

/// How many characters at the front of `s` belong to `class` without a gap.
pub open spec fn run_len(s: Seq<char>, class: Class) -> nat
    decreases s.len(),
{
    if s.len() > 0 && class.holds(s[0]) {
        1 + run_len(s.drop_first(), class)
    } else {
        0
    }
}

/// How many characters at the end of `s` belong to `class` without a gap.
pub open spec fn back_run_len(s: Seq<char>, class: Class) -> nat
    decreases s.len(),
{
    if s.len() > 0 && class.holds(s.last()) {
        1 + back_run_len(s.drop_last(), class)
    } else {
        0
    }
}

/// `s` without the characters of `class` at its front.
pub open spec fn trim_front(s: Seq<char>, class: Class) -> Seq<char> {
    s.skip(run_len(s, class) as int)
}

/// `s` without the characters of `class` at its end.
pub open spec fn trim_back(s: Seq<char>, class: Class) -> Seq<char> {
    s.take(s.len() - back_run_len(s, class))
}

/// `s` without the characters of `class` at either end.
pub open spec fn trim(s: Seq<char>, class: Class) -> Seq<char> {
    trim_back(trim_front(s, class), class)
}

/// The characters of `class` at the front of `s`.
pub open spec fn leading(s: Seq<char>, class: Class) -> Seq<char> {
    s.take(run_len(s, class) as int)
}

/// The run at the front is the longest one: all of it is in the class, and what
/// follows it is not.
pub proof fn lemma_run_len(s: Seq<char>, class: Class)
    ensures
        run_len(s, class) <= s.len(),
        forall|i: int| 0 <= i < run_len(s, class) ==> class.holds(#[trigger] s[i]),
        run_len(s, class) < s.len() ==> !class.holds(s[run_len(s, class) as int]),
    decreases s.len(),
{
    if s.len() > 0 && class.holds(s[0]) {
        let t = s.drop_first();
        lemma_run_len(t, class);
        assert forall|i: int| 0 <= i < run_len(s, class) implies class.holds(#[trigger] s[i]) by {
            if i > 0 {
                assert(s[i] == t[i - 1]);
            }
        }
    }
}

/// A front part of `s` that is in the class and is followed by a character that
/// is not (or by nothing) is the run at the front.
pub proof fn lemma_run_len_is(s: Seq<char>, class: Class, n: nat)
    requires
        n <= s.len(),
        forall|i: int| 0 <= i < n ==> class.holds(#[trigger] s[i]),
        n < s.len() ==> !class.holds(s[n as int]),
    ensures
        run_len(s, class) == n,
{
    lemma_run_len(s, class);
    if run_len(s, class) < n {
        assert(class.holds(s[run_len(s, class) as int]));
    }
}

/// The characters of `s`, one by one.
pub fn chars(s: &str) -> (out: Vec<char>)
    ensures
        out@ == s@,
{
    let mut out: Vec<char> = Vec::new();
    for c in it: s.chars()
        invariant
            it.seq() == s@,
            out@ == s@.take(it.index()),
    {
        out.push(c);
        assert(s@.take(it.index() + 1) == s@.take(it.index()).push(s@[it.index()]));
    }
    assert(s@.take(s@.len() as int) == s@);
    out
}

fn run_from(cs: &Vec<char>, from: usize, class: Class) -> (n: usize)
    requires
        from <= cs@.len(),
    ensures
        n == run_len(cs@.skip(from as int), class),
        from + n <= cs@.len(),
{
    let mut i: usize = from;
    while i < cs.len() && class.contains(cs[i])
        invariant
            from <= i <= cs@.len(),
            forall|j: int| from <= j < i ==> class.holds(#[trigger] cs@[j]),
        decreases cs@.len() - i,
    {
        i += 1;
    }
    proof {
        let t = cs@.skip(from as int);
        assert forall|j: int| 0 <= j < i - from implies class.holds(#[trigger] t[j]) by {
            assert(t[j] == cs@[from + j]);
        }
        lemma_run_len_is(t, class, (i - from) as nat);
    }
    i - from
}

fn back_run_from(cs: &Vec<char>, from: usize, class: Class) -> (n: usize)
    requires
        from <= cs@.len(),
    ensures
        n == back_run_len(cs@.skip(from as int), class),
        from + n <= cs@.len(),
{
    let mut end: usize = cs.len();
    assert(cs@.subrange(from as int, end as int) == cs@.skip(from as int));
    while end > from && class.contains(cs[end - 1])
        invariant
            from <= end <= cs@.len(),
            back_run_len(cs@.skip(from as int), class) == (cs@.len() - end) + back_run_len(
                cs@.subrange(from as int, end as int),
                class,
            ),
        decreases end,
    {
        assert(cs@.subrange(from as int, end as int).drop_last() == cs@.subrange(
            from as int,
            end - 1,
        ));
        end -= 1;
    }
    cs.len() - end
}

/// `s` without the characters of `class` at its front.
pub fn trimmed_front<'a>(s: &'a str, class: Class) -> (t: &'a str)
    ensures
        t@ == trim_front(s@, class),
{
    let cs = chars(s);
    assert(cs@.skip(0) == s@);
    let n = run_from(&cs, 0, class);
    s.substring_char(n, cs.len())
}

/// `s` without the characters of `class` at either end.
pub fn trimmed<'a>(s: &'a str, class: Class) -> (t: &'a str)
    ensures
        t@ == trim(s@, class),
{
    let cs = chars(s);
    assert(cs@.skip(0) == s@);
    let n = run_from(&cs, 0, class);
    let m = back_run_from(&cs, n, class);
    proof {
        let front = trim_front(s@, class);
        assert(s@.subrange(n as int, s@.len() - m) == front.take(front.len() - m));
    }
    s.substring_char(n, cs.len() - m)
}

/// The characters of `class` at the front of `s`.
pub fn leading_run<'a>(s: &'a str, class: Class) -> (t: &'a str)
    ensures
        t@ == leading(s@, class),
{
    let cs = chars(s);
    assert(cs@.skip(0) == s@);
    let n = run_from(&cs, 0, class);
    s.substring_char(0, n)
}

/// What follows `prefix` in `s`, if `s` starts with it.
pub open spec fn after_prefix(s: Seq<char>, prefix: Seq<char>) -> Option<Seq<char>> {
    if prefix.is_prefix_of(s) {
        Some(s.skip(prefix.len() as int))
    } else {
        None
    }
}

/// The value of an optional text.
pub open spec fn opt_text(s: Option<&str>) -> Option<Seq<char>> {
    match s {
        Some(t) => Some(t@),
        None => None,
    }
}

/// Whether the characters of `p` stand in `cs` from `at` on.
fn matches_at(cs: &Vec<char>, at: usize, p: &Vec<char>) -> (b: bool)
    requires
        at <= cs@.len(),
    ensures
        b == p@.is_prefix_of(cs@.skip(at as int)),
{
    if p.len() > cs.len() - at {
        return false;
    }
    let mut i: usize = 0;
    while i < p.len()
        invariant
            i <= p@.len(),
            at + p.len() <= cs.len(),
            forall|j: int| 0 <= j < i ==> p@[j] == #[trigger] cs@.skip(at as int)[j],
        decreases p@.len() - i,
    {
        if p[i] != cs[at + i] {
            assert(cs@.skip(at as int)[i as int] == cs@[at + i]);
            return false;
        }
        i += 1;
    }
    assert(p@ == cs@.skip(at as int).subrange(0, p@.len() as int));
    true
}

/// What follows `prefix` in `s`, if `s` starts with it.
pub fn strip_prefix<'a>(s: &'a str, prefix: &str) -> (t: Option<&'a str>)
    ensures
        opt_text(t) == after_prefix(s@, prefix@),
{
    let cs = chars(s);
    let p = chars(prefix);
    assert(cs@.skip(0) == s@);
    if matches_at(&cs, 0, &p) {
        Some(s.substring_char(p.len(), cs.len()))
    } else {
        None
    }
}

/// Whether two texts are the same.
pub fn same_text(a: &str, b: &str) -> (r: bool)
    ensures
        r == (a@ == b@),
{
    let x = chars(a);
    let y = chars(b);
    assert(x@.skip(0) == a@);
    if x.len() != y.len() {
        return false;
    }
    let r = matches_at(&x, 0, &y);
    assert(r ==> a@ == b@) by {
        if r {
            assert(a@.subrange(0, a@.len() as int) == a@);
        }
    }
    assert(a@ == b@ ==> r) by {
        assert(a@.subrange(0, a@.len() as int) == a@);
    }
    r
}

/// Where `c` first stands in `s`: the length of `s` if nowhere.
pub open spec fn first_index(s: Seq<char>, c: char) -> nat
    decreases s.len(),
{
    if s.len() == 0 || s[0] == c {
        0
    } else {
        1 + first_index(s.drop_first(), c)
    }
}

/// A line without the carriage return at its end, if it has one.
pub open spec fn without_cr(line: Seq<char>) -> Seq<char> {
    if line.len() > 0 && line.last() == '\r' {
        line.drop_last()
    } else {
        line
    }
}

/// The lines of `s`. A line ends with a line feed, or with a carriage return and
/// a line feed; neither belongs to it. The last line need not end so.
pub open spec fn lines(s: Seq<char>) -> Seq<Seq<char>>
    decreases s.len(),
{
    if s.len() == 0 {
        Seq::empty()
    } else {
        let n = first_index(s, '\n');
        if n >= s.len() {
            seq![s]
        } else {
            seq![without_cr(s.take(n as int))] + lines(s.skip(n as int + 1))
        }
    }
}

/// What stands before the first `c` is not `c`.
pub proof fn lemma_first_index(s: Seq<char>, c: char)
    ensures
        first_index(s, c) <= s.len(),
        forall|i: int| 0 <= i < first_index(s, c) ==> #[trigger] s[i] != c,
        first_index(s, c) < s.len() ==> s[first_index(s, c) as int] == c,
    decreases s.len(),
{
    if s.len() > 0 && s[0] != c {
        let t = s.drop_first();
        lemma_first_index(t, c);
        assert forall|i: int| 0 <= i < first_index(s, c) implies #[trigger] s[i] != c by {
            if i > 0 {
                assert(s[i] == t[i - 1]);
            }
        }
    }
}

/// Where `c` stands and does not stand before is its first place.
pub proof fn lemma_first_index_is(s: Seq<char>, c: char, n: nat)
    requires
        n <= s.len(),
        forall|i: int| 0 <= i < n ==> #[trigger] s[i] != c,
        n < s.len() ==> s[n as int] == c,
    ensures
        first_index(s, c) == n,
{
    lemma_first_index(s, c);
    if first_index(s, c) < n {
        assert(s[first_index(s, c) as int] != c);
    }
}

/// The lines of `s`, in order.
pub fn split_lines<'a>(s: &'a str) -> (out: Vec<&'a str>)
    ensures
        out.deep_view() == lines(s@),
{
    let cs = chars(s);
    let mut out: Vec<&'a str> = Vec::new();
    let mut start: usize = 0;
    assert(s@.skip(0) == s@);
    while start < cs.len()
        invariant
            cs@ == s@,
            start <= cs@.len(),
            lines(s@) == out.deep_view() + lines(s@.skip(start as int)),
        decreases cs@.len() - start,
    {
        let ghost rest = s@.skip(start as int);
        let ghost before = out.deep_view();
        let mut end: usize = start;
        while end < cs.len() && cs[end] != '\n'
            invariant
                start <= end <= cs@.len(),
                forall|j: int| start <= j < end ==> #[trigger] cs@[j] != '\n',
            decreases cs@.len() - end,
        {
            end += 1;
        }
        proof {
            assert forall|j: int| 0 <= j < end - start implies #[trigger] rest[j] != '\n' by {
                assert(rest[j] == cs@[start + j]);
            }
            lemma_first_index_is(rest, '\n', (end - start) as nat);
        }
        if end == cs.len() {
            let line = s.substring_char(start, end);
            assert(line@ == rest);
            out.push(line);
            assert(out.deep_view() == before.push(line@));
            assert(lines(rest) == seq![rest]);
            assert(before + lines(rest) == out.deep_view() + lines(s@.skip(end as int)));
            start = end;
        } else {
            let stop: usize = if end > start && cs[end - 1] == '\r' {
                end - 1
            } else {
                end
            };
            let line = s.substring_char(start, stop);
            assert(line@ == without_cr(rest.take(end - start)));
            out.push(line);
            assert(out.deep_view() == before.push(line@));
            assert(rest.skip(end - start + 1) == s@.skip(end + 1));
            assert(before + lines(rest) == out.deep_view() + lines(s@.skip(end + 1)));
            start = end + 1;
        }
    }
    assert(out.deep_view() + lines(s@.skip(start as int)) == out.deep_view());
    out
}

/// The lines with a line feed between each and the next.
pub open spec fn joined(ls: Seq<Seq<char>>) -> Seq<char>
    decreases ls.len(),
{
    if ls.len() == 0 {
        Seq::empty()
    } else if ls.len() == 1 {
        ls[0]
    } else {
        joined(ls.drop_last()) + seq!['\n'] + ls.last()
    }
}

/// The last `n` entries of `ls`: all of them, if there are no more.
pub open spec fn last_of(ls: Seq<Seq<char>>, n: nat) -> Seq<Seq<char>> {
    if ls.len() <= n {
        ls
    } else {
        ls.skip(ls.len() - n)
    }
}

/// The last `count` lines of `s`, with a line feed between each and the next.
pub fn tail_lines(s: &str, count: u32) -> (out: String)
    ensures
        out@ == joined(last_of(lines(s@), count as nat)),
{
    let ls = split_lines(s);
    let ghost kept = last_of(lines(s@), count as nat);
    let n: usize = count as usize;
    let from: usize = if ls.len() <= n {
        0
    } else {
        ls.len() - n
    };
    let mut out: String = String::new();
    let mut i: usize = from;
    proof {
        reveal_strlit("\n");
        assert("\n"@ == seq!['\n']);
        assert(kept == ls.deep_view().skip(from as int));
        assert(kept.take(0) == Seq::<Seq<char>>::empty());
    }
    while i < ls.len()
        invariant
            from <= i <= ls@.len(),
            kept == ls.deep_view().skip(from as int),
            out@ == joined(kept.take(i - from)),
            "\n"@ == seq!['\n'],
        decreases ls@.len() - i,
    {
        proof {
            assert(kept[i - from] == ls@[i as int]@);
            assert(kept.take(i - from + 1).drop_last() == kept.take(i - from));
            assert(kept.take(i - from + 1).last() == ls@[i as int]@);
        }
        if i > from {
            out.append("\n");
        }
        out.append(ls[i]);
        i += 1;
        assert(out@ == joined(kept.take(i - from)));
    }
    assert(kept.take(ls@.len() - from) == kept);
    out
}

/// `s` with `with` in place of each `pat`, found from left to right without
/// overlap.
pub open spec fn replaced(s: Seq<char>, pat: Seq<char>, with: Seq<char>) -> Seq<char>
    decreases s.len(),
{
    if pat.len() == 0 || s.len() < pat.len() {
        s
    } else if pat.is_prefix_of(s) {
        with + replaced(s.skip(pat.len() as int), pat, with)
    } else {
        seq![s[0]] + replaced(s.skip(1), pat, with)
    }
}

/// `s` with `with` in place of each `pat`, found from left to right without
/// overlap.
pub fn replace_all(s: &str, pat: &str, with: &str) -> (out: String)
    requires
        pat@.len() > 0,
    ensures
        out@ == replaced(s@, pat@, with@),
{
    let cs = chars(s);
    let p = chars(pat);
    let mut out: String = String::new();
    let mut i: usize = 0;
    assert(s@.skip(0) == s@);
    while i < cs.len()
        invariant
            cs@ == s@,
            p@ == pat@,
            pat@.len() > 0,
            i <= cs@.len(),
            replaced(s@, pat@, with@) == out@ + replaced(s@.skip(i as int), pat@, with@),
        decreases cs@.len() - i,
    {
        let ghost rest = s@.skip(i as int);
        let ghost before = out@;
        if matches_at(&cs, i, &p) {
            out.append(with);
            assert(rest.skip(pat@.len() as int) == s@.skip(i + pat@.len()));
            assert(before + replaced(rest, pat@, with@) == out@ + replaced(
                s@.skip(i + pat@.len()),
                pat@,
                with@,
            ));
            i += p.len();
        } else {
            let one = s.substring_char(i, i + 1);
            out.append(one);
            assert(one@ == seq![rest[0]]);
            assert(rest.skip(1) == s@.skip(i + 1));
            assert(rest == seq![rest[0]] + rest.skip(1));
            assert(replaced(rest, pat@, with@) == seq![rest[0]] + replaced(
                rest.skip(1),
                pat@,
                with@,
            ));
            assert(before + replaced(rest, pat@, with@) == out@ + replaced(
                s@.skip(i + 1),
                pat@,
                with@,
            ));
            i += 1;
        }
    }
    assert(out@ + replaced(s@.skip(i as int), pat@, with@) == out@);
    out
}

/// The number that decimal digits stand for.
pub open spec fn decimal(digits: Seq<char>) -> nat
    decreases digits.len(),
{
    if digits.len() == 0 {
        0
    } else {
        decimal(digits.drop_last()) * 10 + (digits.last() as u32 - 48) as nat
    }
}

/// The number that the digits at the front of `s` stand for: none if there is no
/// digit, or if the number does not fit.
pub open spec fn leading_number(s: Seq<char>) -> Option<u32> {
    let digits = leading(s, Class::Digit);
    if digits.len() == 0 || decimal(digits) > u32::MAX {
        None
    } else {
        Some(decimal(digits) as u32)
    }
}

/// More digits never make a smaller number.
proof fn lemma_decimal_grows(digits: Seq<char>, n: int)
    requires
        0 <= n <= digits.len(),
        forall|i: int| 0 <= i < digits.len() ==> Class::Digit.holds(#[trigger] digits[i]),
    ensures
        decimal(digits.take(n)) <= decimal(digits),
    decreases digits.len() - n,
{
    if n < digits.len() {
        assert(digits.take(n + 1).drop_last() == digits.take(n));
        assert(Class::Digit.holds(digits[n]));
        lemma_decimal_grows(digits, n + 1);
    } else {
        assert(digits.take(n) == digits);
    }
}

/// The number that the digits at the front of `s` stand for.
pub fn parse_leading_number(s: &str) -> (n: Option<u32>)
    ensures
        n == leading_number(s@),
{
    let cs = chars(s);
    assert(cs@.skip(0) == s@);
    let count = run_from(&cs, 0, Class::Digit);
    let ghost digits = leading(s@, Class::Digit);
    proof {
        lemma_run_len(s@, Class::Digit);
        assert(digits.take(0) == Seq::<char>::empty());
    }
    if count == 0 {
        return None;
    }
    let mut value: u64 = 0;
    let mut i: usize = 0;
    while i < count
        invariant
            count <= cs@.len(),
            digits == cs@.take(count as int),
            forall|j: int| 0 <= j < count ==> Class::Digit.holds(#[trigger] digits[j]),
            digits == leading(s@, Class::Digit),
            count > 0,
            i <= count,
            value <= u32::MAX,
            value == decimal(digits.take(i as int)),
        decreases count - i,
    {
        proof {
            assert(Class::Digit.holds(digits[i as int]));
            assert(digits.take(i + 1).drop_last() == digits.take(i as int));
            lemma_decimal_grows(digits, i + 1);
        }
        let d: u32 = cs[i] as u32 - 48;
        value = value * 10 + d as u64;
        if value > 4294967295 {
            return None;
        }
        i += 1;
    }
    assert(digits.take(count as int) == digits);
    Some(value as u32)
}

} // verus!
