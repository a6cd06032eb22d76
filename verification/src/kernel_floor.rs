//! The oldest kernel that is served.

use crate::text::{chars_of, decimal, join, join3, text_of};
use vstd::prelude::*;

verus! {

/// Why a kernel is not served.
#[derive(Debug)]
pub enum KernelFloorError {
    /// It is too old.
    TooOld { found: String },
    /// Its release has no version number.
    Unparseable { raw: String },
    /// Its release could not be read.
    IoError(String),
}

/// A [`KernelFloorError`] as it is seen.
pub enum KernelFloorErrorView {
    TooOld { found: Seq<char> },
    Unparseable { raw: Seq<char> },
    IoError(Seq<char>),
}

impl View for KernelFloorError {
    type V = KernelFloorErrorView;

    open spec fn view(&self) -> KernelFloorErrorView {
        match self {
            KernelFloorError::TooOld { found } => KernelFloorErrorView::TooOld { found: found@ },
            KernelFloorError::Unparseable { raw } => KernelFloorErrorView::Unparseable { raw: raw@ },
            KernelFloorError::IoError(why) => KernelFloorErrorView::IoError(why@),
        }
    }
}

/// The text in quotes, as `{:?}` shows it.
pub uninterp spec fn quoted(s: Seq<char>) -> Seq<char>;

/// The `Debug` of `str`, through `format!`: the text in quotes, with what
/// cannot be shown escaped.
#[verifier::external_body]
fn quoted_text(s: &str) -> (r: String)
    ensures
        r@ == quoted(s@),
{
    format!("{:?}", s)
}

impl KernelFloorErrorView {
    /// The message shown to people.
    pub open spec fn message(self) -> Seq<char> {
        match self {
            KernelFloorErrorView::TooOld { found } => "kernel "@ + found
                + " too old; FUSE_PASSTHROUGH requires Linux 6.9 or newer"@,
            KernelFloorErrorView::Unparseable { raw } => "could not parse kernel release "@
                + quoted(raw) + "; FUSE_PASSTHROUGH requires Linux 6.9 or newer"@,
            KernelFloorErrorView::IoError(why) => "could not read /proc/sys/kernel/osrelease: "@
                + why,
        }
    }
}

impl KernelFloorError {
    /// The message shown to people.
    pub fn message(&self) -> (r: String)
        ensures
            r@ == self@.message(),
    {
        match self {
            KernelFloorError::TooOld { found } => join3(
                "kernel ",
                found.as_str(),
                " too old; FUSE_PASSTHROUGH requires Linux 6.9 or newer",
            ),
            KernelFloorError::Unparseable { raw } => {
                let shown = quoted_text(raw.as_str());
                join3(
                    "could not parse kernel release ",
                    shown.as_str(),
                    "; FUSE_PASSTHROUGH requires Linux 6.9 or newer",
                )
            },
            KernelFloorError::IoError(why) => join(
                "could not read /proc/sys/kernel/osrelease: ",
                why.as_str(),
            ),
        }
    }
}

/// The characters that Unicode calls white space.
pub open spec fn white(c: char) -> bool {
    let n = c as u32;
    0x9 <= n <= 0xd || n == 0x20 || n == 0x85 || n == 0xa0 || n == 0x1680 || 0x2000 <= n <= 0x200a
        || n == 0x2028 || n == 0x2029 || n == 0x202f || n == 0x205f || n == 0x3000
}

/// `s` without the white space at its end.
pub open spec fn trimmed_end(s: Seq<char>) -> Seq<char>
    decreases s.len(),
{
    if s.len() > 0 && white(s.last()) {
        trimmed_end(s.drop_last())
    } else {
        s
    }
}

/// `s` without the white space at its start and end.
pub open spec fn trimmed(s: Seq<char>) -> Seq<char>
    decreases s.len(),
{
    if s.len() > 0 && white(s[0]) {
        trimmed(s.drop_first())
    } else {
        trimmed_end(s)
    }
}

/// Where `c` first stands in `s`; the length of `s` where it does not.
pub open spec fn first_at(s: Seq<char>, c: char) -> int
    decreases s.len(),
{
    if s.len() == 0 {
        0
    } else if s[0] == c {
        0
    } else {
        1 + first_at(s.drop_first(), c)
    }
}

/// The part of `s` before the first `c`; all of `s` where there is none.
pub open spec fn before(s: Seq<char>, c: char) -> Seq<char> {
    s.take(first_at(s, c))
}

/// `c` is a decimal digit.
pub open spec fn is_digit(c: char) -> bool {
    '0' <= c <= '9'
}

/// The number that digits spell.
pub open spec fn value(s: Seq<char>) -> nat
    decreases s.len(),
{
    if s.len() == 0 {
        0
    } else {
        value(s.drop_last()) * 10 + (s.last() as nat - '0' as nat) as nat
    }
}

/// `s` is made of digits, of which there is at least one.
pub open spec fn all_digits(s: Seq<char>) -> bool {
    s.len() > 0 && forall|i: int| 0 <= i < s.len() ==> is_digit(#[trigger] s[i])
}

/// `s` without a `+` before something else.
pub open spec fn unsigned(s: Seq<char>) -> Seq<char> {
    if s.len() > 1 && s[0] == '+' {
        s.skip(1)
    } else {
        s
    }
}

/// The number that `s` spells, as `u32` reads it: digits, with an optional `+`
/// before them.
pub open spec fn number(s: Seq<char>) -> Option<u32> {
    if all_digits(unsigned(s)) && value(unsigned(s)) <= u32::MAX {
        Some(value(unsigned(s)) as u32)
    } else {
        None
    }
}

/// The first two numbers of a release such as `6.9.0-generic`.
pub open spec fn version(raw: Seq<char>) -> Option<(u32, u32)> {
    let prefix = before(raw, '-');
    let dot = first_at(prefix, '.');
    if dot < prefix.len() {
        match (number(before(prefix, '.')), number(before(prefix.skip(dot + 1), '.'))) {
            (Some(major), Some(minor)) => Some((major, minor)),
            _ => None,
        }
    } else {
        None
    }
}

/// What a release is answered: versions from 6.9 on are served.
pub open spec fn floor_result(raw: Seq<char>) -> Result<(), KernelFloorErrorView> {
    let release = trimmed(raw);
    match version(release) {
        None => Err(KernelFloorErrorView::Unparseable { raw: release }),
        Some((major, minor)) => if major < 6 || major == 6 && minor < 9 {
            Err(KernelFloorErrorView::TooOld { found: release })
        } else {
            Ok(())
        },
    }
}

/// Whether Unicode calls `c` white space.
pub fn is_white(c: char) -> (r: bool)
    ensures
        r == white(c),
{
    let n: u32 = c as u32;
    0x9 <= n && n <= 0xd || n == 0x20 || n == 0x85 || n == 0xa0 || n == 0x1680 || 0x2000 <= n && n
        <= 0x200a || n == 0x2028 || n == 0x2029 || n == 0x202f || n == 0x205f || n == 0x3000
}

/// `s` without the white space at its start and end.
pub fn trim(s: &str) -> (r: String)
    ensures
        r@ == trimmed(s@),
{
    let v = chars_of(s);
    let mut from: usize = 0;
    assert(v@.skip(0) =~= v@);
    while from < v.len() && is_white(v[from])
        invariant
            from <= v@.len(),
            trimmed(v@.skip(from as int)) == trimmed(s@),
        decreases v@.len() - from,
    {
        assert(v@.skip(from as int).drop_first() =~= v@.skip(from + 1));
        from = from + 1;
    }
    let mut to: usize = v.len();
    assert(v@.subrange(from as int, to as int) =~= v@.skip(from as int));
    while to > from && is_white(v[to - 1])
        invariant
            from <= to <= v@.len(),
            trimmed_end(v@.subrange(from as int, to as int)) == trimmed(s@),
        decreases to,
    {
        assert(v@.subrange(from as int, to as int).drop_last() =~= v@.subrange(
            from as int,
            to - 1,
        ));
        to = to - 1;
    }
    text_of(&v, from, to)
}

proof fn lemma_first_at(s: Seq<char>, c: char, n: int)
    requires
        0 <= n <= s.len(),
        forall|i: int| 0 <= i < n ==> s[i] != c,
        n < s.len() ==> s[n] == c,
    ensures
        first_at(s, c) == n,
    decreases s.len(),
{
    if n > 0 {
        let rest = s.drop_first();
        assert forall|i: int| 0 <= i < n - 1 implies rest[i] != c by {
            assert(rest[i] == s[i + 1]);
        }
        lemma_first_at(rest, c, n - 1);
    }
}

fn find_first(v: &Vec<char>, from: usize, to: usize, c: char) -> (r: usize)
    requires
        from <= to <= v@.len(),
    ensures
        from <= r <= to,
        r - from == first_at(v@.subrange(from as int, to as int), c),
{
    let mut i: usize = from;
    while i < to && v[i] != c
        invariant
            from <= i <= to <= v@.len(),
            forall|j: int| from <= j < i ==> v@[j] != c,
        decreases to - i,
    {
        i = i + 1;
    }
    proof {
        lemma_first_at(v@.subrange(from as int, to as int), c, i - from);
    }
    i
}

proof fn lemma_value_grows(s: Seq<char>, n: int)
    requires
        0 <= n <= s.len(),
    ensures
        value(s.take(n)) <= value(s),
    decreases s.len() - n,
{
    if n < s.len() {
        assert(s.take(n + 1).drop_last() =~= s.take(n));
        lemma_value_grows(s, n + 1);
    } else {
        assert(s.take(n) =~= s);
    }
}

fn parse_number(v: &Vec<char>, from: usize, to: usize) -> (r: Option<u32>)
    requires
        from <= to <= v@.len(),
    ensures
        r == number(v@.subrange(from as int, to as int)),
{
    let ghost s = v@.subrange(from as int, to as int);
    let start: usize = if to - from > 1 && v[from] == '+' {
        from + 1
    } else {
        from
    };
    let ghost digits = unsigned(s);
    assert(digits =~= v@.subrange(start as int, to as int));
    if start == to {
        return None;
    }
    let mut acc: u64 = 0;
    let mut i: usize = start;
    assert(digits.take(0) =~= Seq::empty());
    while i < to
        invariant
            from <= start <= i <= to <= v@.len(),
            s == v@.subrange(from as int, to as int),
            digits == unsigned(s),
            digits == v@.subrange(start as int, to as int),
            acc == value(digits.take(i - start)),
            acc <= u32::MAX,
            forall|j: int| 0 <= j < i - start ==> is_digit(#[trigger] digits[j]),
        decreases to - i,
    {
        let c = v[i];
        assert(digits[i - start] == c);
        if !('0' <= c && c <= '9') {
            return None;
        }
        let d: u64 = c as u64 - 48;
        assert(digits.take(i - start + 1).drop_last() =~= digits.take(i - start));
        acc = acc * 10 + d;
        if acc > 0xffff_ffff {
            proof {
                lemma_value_grows(digits, i - start + 1);
            }
            return None;
        }
        i = i + 1;
    }
    assert(digits.take(digits.len() as int) =~= digits);
    Some(acc as u32)
}

/// The first two numbers of a release such as `6.9.0-generic`.
pub fn parse_major_minor(raw: &str) -> (r: Option<(u32, u32)>)
    ensures
        r == version(raw@),
{
    let v = chars_of(raw);
    assert(v@.subrange(0, v@.len() as int) =~= raw@);
    let end: usize = find_first(&v, 0, v.len(), '-');
    let ghost prefix = before(raw@, '-');
    assert(v@.subrange(0, end as int) =~= prefix);
    let dot: usize = find_first(&v, 0, end, '.');
    if dot == end {
        return None;
    }
    let ghost rest = prefix.skip(dot + 1);
    assert(v@.subrange(dot + 1, end as int) =~= rest);
    let second: usize = find_first(&v, dot + 1, end, '.');
    assert(v@.subrange(0, dot as int) =~= before(prefix, '.'));
    assert(v@.subrange(dot + 1, second as int) =~= before(rest, '.'));
    let major = parse_number(&v, 0, dot);
    let minor = parse_number(&v, dot + 1, second);
    match (major, minor) {
        (Some(major), Some(minor)) => Some((major, minor)),
        _ => None,
    }
}

/// Whether a kernel of that release is served: from 6.9 on.
pub fn check_kernel_floor(osrelease: &str) -> (r: Result<(), KernelFloorError>)
    ensures
        match r {
            Ok(()) => floor_result(osrelease@) == Ok::<(), KernelFloorErrorView>(()),
            Err(e) => floor_result(osrelease@) == Err::<(), KernelFloorErrorView>(e@),
        },
{
    let release = trim(osrelease);
    match parse_major_minor(release.as_str()) {
        None => Err(KernelFloorError::Unparseable { raw: release }),
        Some((major, minor)) => if major < 6 || major == 6 && minor < 9 {
            Err(KernelFloorError::TooOld { found: release })
        } else {
            Ok(())
        },
    }
}

proof fn lemma_decimal(n: nat)
    ensures
        decimal(n).len() > 0,
        all_digits(decimal(n)),
        value(decimal(n)) == n,
    decreases n,
{
    reveal_with_fuel(value, 2);
    if n >= 10 {
        lemma_decimal(n / 10);
        let d = decimal(n);
        assert(d.drop_last() =~= decimal(n / 10));
        assert forall|i: int| 0 <= i < d.len() implies is_digit(#[trigger] d[i]) by {
            if i < d.len() - 1 {
                assert(d[i] == decimal(n / 10)[i]);
            }
        }
    } else {
        assert(decimal(n).drop_last() =~= Seq::empty());
    }
}

/// A number is read as what it was written for.
proof fn lemma_number_of_decimal(n: u32)
    ensures
        number(decimal(n as nat)) == Some(n),
{
    lemma_decimal(n as nat);
    assert(is_digit(decimal(n as nat)[0]));
}

proof fn lemma_first_after_digits(n: nat, tail: Seq<char>, c: char)
    requires
        !is_digit(c),
    ensures
        first_at(decimal(n) + tail, c) == decimal(n).len() + first_at(tail, c),
{
    lemma_decimal(n);
    let s = decimal(n) + tail;
    lemma_first_at_bounds(tail, c);
    let at = decimal(n).len() + first_at(tail, c);
    assert forall|i: int| 0 <= i < at implies s[i] != c by {
        if i < decimal(n).len() {
            assert(is_digit(decimal(n)[i]));
        } else {
            assert(s[i] == tail[i - decimal(n).len()]);
        }
    }
    if at < s.len() {
        assert(s[at] == tail[at - decimal(n).len()]);
    }
    lemma_first_at(s, c, at as int);
}

proof fn lemma_first_at_bounds(s: Seq<char>, c: char)
    ensures
        0 <= first_at(s, c) <= s.len(),
        forall|i: int| 0 <= i < first_at(s, c) ==> s[i] != c,
        first_at(s, c) < s.len() ==> s[first_at(s, c)] == c,
    decreases s.len(),
{
    if s.len() > 0 && s[0] != c {
        let rest = s.drop_first();
        lemma_first_at_bounds(rest, c);
        assert forall|i: int| 0 <= i < first_at(s, c) implies s[i] != c by {
            if i > 0 {
                assert(s[i] == rest[i - 1]);
            }
        }
    }
}

/// The part of a release before its dash.
proof fn lemma_before_dash(major: u32, minor: u32, suffix: Seq<char>)
    ensures
        before(decimal(major as nat) + "."@ + decimal(minor as nat) + suffix, '-') == decimal(
            major as nat,
        ) + ("."@ + (decimal(minor as nat) + before(suffix, '-'))),
{
    reveal_strlit(".");
    let a = decimal(major as nat);
    let b = decimal(minor as nat);
    let raw = a + "."@ + b + suffix;
    let patch = before(suffix, '-');
    let tail = "."@ + (b + suffix);
    lemma_first_at_bounds(suffix, '-');
    lemma_first_after_digits(minor as nat, suffix, '-');
    assert(tail.drop_first() =~= b + suffix);
    assert(first_at(tail, '-') == 1 + b.len() + patch.len());
    lemma_first_after_digits(major as nat, tail, '-');
    assert(raw =~= a + tail);
    assert(before(raw, '-') =~= a + ("."@ + (b + patch)));
}

/// A release that names its version, with anything after a dot or a dash, is
/// read as that version, so that it is served exactly from 6.9 on.
#[verifier::spinoff_prover]
pub proof fn named_version_is_read(major: u32, minor: u32, suffix: Seq<char>)
    requires
        suffix.len() > 0 ==> suffix[0] == '-' || suffix[0] == '.',
    ensures
        version(decimal(major as nat) + "."@ + decimal(minor as nat) + suffix) == Some(
            (major, minor),
        ),
{
    reveal_strlit(".");
    let a = decimal(major as nat);
    let b = decimal(minor as nat);
    let raw = a + "."@ + b + suffix;
    let patch = before(suffix, '-');
    let dotted = "."@ + (b + patch);
    lemma_before_dash(major, minor, suffix);
    let prefix = before(raw, '-');
    assert(prefix == a + dotted);
    // The first and the second number.
    assert(first_at(dotted, '.') == 0);
    lemma_first_after_digits(major as nat, dotted, '.');
    assert(first_at(prefix, '.') == a.len());
    assert(before(prefix, '.') =~= a);
    assert(prefix.skip(a.len() as int + 1) =~= b + patch);
    assert(first_at(patch, '.') == 0) by {
        lemma_first_at_bounds(suffix, '-');
        assert(patch.len() > 0 ==> patch[0] == suffix[0]);
    }
    lemma_first_after_digits(minor as nat, patch, '.');
    assert(before(b + patch, '.') =~= b);
    lemma_number_of_decimal(major);
    lemma_number_of_decimal(minor);
}

proof fn lemma_trimmed_end(body: Seq<char>, trail: Seq<char>)
    requires
        body.len() > 0,
        !white(body.last()),
        forall|i: int| 0 <= i < trail.len() ==> white(#[trigger] trail[i]),
    ensures
        trimmed_end(body + trail) == body,
    decreases trail.len(),
{
    let s = body + trail;
    if trail.len() > 0 {
        let rest = trail.drop_last();
        assert(trail[trail.len() - 1] == s.last());
        assert forall|i: int| 0 <= i < rest.len() implies white(#[trigger] rest[i]) by {
            assert(trail[i] == rest[i]);
        }
        lemma_trimmed_end(body, rest);
        assert(s.drop_last() =~= body + rest);
    } else {
        assert(s =~= body);
    }
}

/// White space around a text is dropped, and nothing of the text.
pub proof fn only_white_space_around_is_dropped(
    lead: Seq<char>,
    body: Seq<char>,
    trail: Seq<char>,
)
    requires
        body.len() > 0,
        !white(body[0]),
        !white(body.last()),
        forall|i: int| 0 <= i < lead.len() ==> white(#[trigger] lead[i]),
        forall|i: int| 0 <= i < trail.len() ==> white(#[trigger] trail[i]),
    ensures
        trimmed(lead + body + trail) == body,
    decreases lead.len(),
{
    let s = lead + body + trail;
    if lead.len() > 0 {
        let rest = lead.drop_first();
        assert(lead[0] == s[0]);
        assert forall|i: int| 0 <= i < rest.len() implies white(#[trigger] rest[i]) by {
            assert(lead[i + 1] == rest[i]);
        }
        only_white_space_around_is_dropped(rest, body, trail);
        assert(s.drop_first() =~= rest + body + trail);
    } else {
        assert(s[0] == body[0]);
        assert(s =~= body + trail);
        lemma_trimmed_end(body, trail);
    }
}

/// A kernel whose release names its version, with anything behind a dot or a
/// dash and white space around it, is served exactly if the version is 6.9 or
/// later; one that is not served is named as it was found.
pub proof fn served_from_six_nine_on(
    lead: Seq<char>,
    major: u32,
    minor: u32,
    suffix: Seq<char>,
    trail: Seq<char>,
)
    requires
        suffix.len() > 0 ==> (suffix[0] == '-' || suffix[0] == '.') && !white(suffix.last()),
        forall|i: int| 0 <= i < lead.len() ==> white(#[trigger] lead[i]),
        forall|i: int| 0 <= i < trail.len() ==> white(#[trigger] trail[i]),
    ensures
        ({
            let release = decimal(major as nat) + seq!['.'] + decimal(minor as nat) + suffix;
            floor_result(lead + release + trail) == if major > 6 || major == 6 && minor >= 9 {
                Ok::<(), KernelFloorErrorView>(())
            } else {
                Err::<(), KernelFloorErrorView>(KernelFloorErrorView::TooOld { found: release })
            }
        }),
{
    reveal_strlit(".");
    assert("."@ =~= seq!['.']);
    let a = decimal(major as nat);
    let b = decimal(minor as nat);
    let release = a + seq!['.'] + b + suffix;
    lemma_decimal(major as nat);
    lemma_decimal(minor as nat);
    assert(is_digit(a[0]));
    assert(release[0] == a[0]);
    assert(is_digit(b[b.len() - 1]));
    if suffix.len() == 0 {
        assert(release.last() == b[b.len() - 1]);
    } else {
        assert(release.last() == suffix.last());
    }
    only_white_space_around_is_dropped(lead, release, trail);
    named_version_is_read(major, minor, suffix);
}

/// A release that holds no dot names no version, and is refused as it was found.
pub proof fn versions_have_a_dot(release: Seq<char>)
    requires
        release.len() > 0,
        !white(release[0]),
        !white(release.last()),
        !release.contains('.'),
    ensures
        floor_result(release) == Err::<(), KernelFloorErrorView>(
            KernelFloorErrorView::Unparseable { raw: release },
        ),
{
    only_white_space_around_is_dropped(Seq::empty(), release, Seq::empty());
    assert(Seq::<char>::empty() + release + Seq::<char>::empty() =~= release);
    lemma_first_at_bounds(release, '-');
    let prefix = before(release, '-');
    lemma_first_at_bounds(prefix, '.');
    let dot = first_at(prefix, '.');
    if dot < prefix.len() {
        assert(release[dot] == '.');
    }
}

/// White space is what Unicode calls so: six characters of ASCII, the space
/// among them, and nineteen beyond.
pub proof fn white_space_is_listed(c: char)
    ensures
        c as u32 <= 0x7f ==> (white(c) <==> c == '\t' || c == '\n' || c == '\u{b}' || c == '\u{c}'
            || c == '\r' || c == ' '),
        c as u32 > 0x7f ==> (white(c) <==> c == '\u{85}' || c == '\u{a0}' || c == '\u{1680}'
            || '\u{2000}' <= c <= '\u{200a}' || c == '\u{2028}' || c == '\u{2029}' || c == '\u{202f}'
            || c == '\u{205f}' || c == '\u{3000}'),
{
}

/// A number is read digit by digit, each of which counts ten times less than
/// the one before it. It is made of digits alone, except that a plus may stand
/// before them, and fits into 32 bits.
pub proof fn numbers_are_made_of_digits(s: Seq<char>, c: char)
    ensures
        number(Seq::empty()) is None,
        '0' <= c <= '9' ==> number(seq![c]) == Some((c as u32 - '0' as u32) as u32),
        s.len() > 0 && '0' <= s[0] <= '9' && '0' <= c <= '9' ==> number(s.push(c)) == match number(
            s,
        ) {
            Some(n) => if n * 10 + (c as u32 - '0' as u32) <= 0xffff_ffff {
                Some((n * 10 + (c as u32 - '0' as u32)) as u32)
            } else {
                None
            },
            None => None,
        },
        s.len() > 0 && !('0' <= c <= '9') ==> number(s.push(c)) is None,
        s.len() > 0 && '0' <= s[0] <= '9' ==> number(seq!['+'] + s) == number(s),
        s.len() > 0 && !('0' <= s[0] <= '9') && s[0] != '+' ==> number(s) is None,
        number(seq!['+']) is None,
        number(seq!['+', '+'] + s) is None,
{
    reveal_with_fuel(value, 2);
    assert(seq![c].drop_last() =~= Seq::empty());
    assert(is_digit(c) ==> all_digits(seq![c]));
    let more = s.push(c);
    if s.len() > 0 {
        assert(more.drop_last() =~= s);
        if '0' <= s[0] <= '9' && '0' <= c <= '9' {
            if all_digits(s) {
                assert forall|i: int| 0 <= i < more.len() implies is_digit(#[trigger] more[i]) by {
                    if i < s.len() {
                        assert(more[i] == s[i]);
                    }
                }
            } else {
                let i = choose|i: int| 0 <= i < s.len() && !is_digit(#[trigger] s[i]);
                assert(!is_digit(more[i]));
            }
        }
        if !('0' <= c <= '9') {
            let digits = unsigned(more);
            assert(digits[digits.len() - 1] == c);
            assert(!is_digit(digits[digits.len() - 1]));
        }
        let signed = seq!['+'] + s;
        assert(signed.skip(1) =~= s);
        assert(!is_digit(s[0]) && s[0] != '+' ==> !all_digits(s));
    }
    assert(!is_digit(seq!['+'][0]));
    let twice = seq!['+', '+'] + s;
    assert(twice.skip(1)[0] == '+');
    assert(!is_digit(twice.skip(1)[0]));
}

/// The message about a kernel that is not served says what was found, and from
/// which version on kernels are served.
pub proof fn messages_name_the_floor(found: Seq<char>)
    ensures
        (KernelFloorErrorView::TooOld { found }).message() == "kernel "@ + found + " too old"@
            + "; FUSE_PASSTHROUGH requires Linux 6.9 or newer"@,
        (KernelFloorErrorView::Unparseable { raw: found }).message()
            == "could not parse kernel release "@ + quoted(found)
            + "; FUSE_PASSTHROUGH requires Linux 6.9 or newer"@,
        (KernelFloorErrorView::IoError(found)).message() == "could not read "@
            + "/proc/sys/kernel/osrelease"@ + ": "@ + found,
{
    reveal_strlit(" too old; FUSE_PASSTHROUGH requires Linux 6.9 or newer");
    reveal_strlit(" too old");
    reveal_strlit("; FUSE_PASSTHROUGH requires Linux 6.9 or newer");
    reveal_strlit("could not read /proc/sys/kernel/osrelease: ");
    reveal_strlit("could not read ");
    reveal_strlit("/proc/sys/kernel/osrelease");
    reveal_strlit(": ");
    assert((KernelFloorErrorView::TooOld { found }).message() =~= "kernel "@ + found + " too old"@
        + "; FUSE_PASSTHROUGH requires Linux 6.9 or newer"@);
    assert((KernelFloorErrorView::IoError(found)).message() =~= "could not read "@
        + "/proc/sys/kernel/osrelease"@ + ": "@ + found);
}

}
