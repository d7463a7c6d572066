//! The progress line that `HandBrakeCLI` writes to its standard output, and
//! the figures read from it.

use vstd::prelude::*;
use vstd::slice::slice_subrange;

use crate::error::Error;
use crate::event::{Hundredths, Progress};
use crate::text::{decimal, same_text};

verus! {

/// The progress line, as a regular expression of the `regex` crate:
/// `Encoding: task <n> of <n>, <pct> %`, optionally followed by
/// ` (<fps> fps, avg <avg_fps> fps, ETA <HHhMMmSSs>)`.
pub const PROGRESS_PATTERN: &'static str =
    r"Encoding: task \d+ of \d+, (?P<pct>\d{1,2}\.\d{2}) %( \((?P<fps>\d+\.\d{2}) fps, avg (?P<avg_fps>\d+\.\d{2}) fps, ETA (?P<eta>\d{2}h\d{2}m\d{2}s)\))?";

/// The number of capture groups of [`PROGRESS_PATTERN`], the whole match
/// counted as group 0.
pub const GROUP_COUNT: usize = 6;

/// The index of the capture group `pct`.
pub const GROUP_PCT: usize = 1;

/// The index of the capture group `fps`.
pub const GROUP_FPS: usize = 3;

/// The index of the capture group `avg_fps`.
pub const GROUP_AVG_FPS: usize = 4;

/// The index of the capture group `eta`.
pub const GROUP_ETA: usize = 5;

/// `regex::bytes::Regex`, a compiled regular expression, as a value of which
/// nothing is known but what [`regex_new`] and [`regex_captures`] name.
#[verifier::external_type_specification]
#[verifier::external_body]
pub struct ExRegex(regex::bytes::Regex);

/// What `regex::bytes::Regex::new` returns for a pattern: the compiled
/// expression, or nothing where the pattern was refused.
pub uninterp spec fn regex_new(pattern: Seq<char>) -> Option<regex::bytes::Regex>;

/// What `regex::bytes::Regex::captures` finds in a haystack: nothing, or
/// for the leftmost match the byte offsets (start, end) of each capture
/// group in the order of the groups' indices, the whole match first, with
/// `None` for a group that took no part in the match.
pub uninterp spec fn regex_captures(re: regex::bytes::Regex, haystack: Seq<u8>) -> Option<
    Seq<Option<(usize, usize)>>,
>;

/// Calls `regex::bytes::Regex::new` and drops the error of a pattern that
/// was refused. The contract only gives the result its name, [`regex_new`]:
/// nothing is claimed about which patterns compile.
#[verifier::external_body]
fn regex_compile(pattern: &str) -> (r: Option<regex::bytes::Regex>)
    ensures
        r == regex_new(pattern@),
{
    regex::bytes::Regex::new(pattern).ok()
}

/// Calls `regex::bytes::Regex::captures` and copies the offsets of every
/// capture group out of the result. The contract only gives the result its
/// name, [`regex_captures`]: nothing is claimed about what matches.
#[verifier::external_body]
fn regex_capture_spans(re: &regex::bytes::Regex, haystack: &[u8]) -> (r: Option<
    Vec<Option<(usize, usize)>>,
>)
    ensures
        regex_captures(*re, haystack@) == match r {
            Some(spans) => Some(spans@),
            None => None,
        },
{
    re.captures(haystack).map(|caps| caps.iter().map(|m| m.map(|m| (m.start(), m.end()))).collect())
}

/// A range of bytes in a chunk: from `start` up to, not including, `end`.
#[derive(Debug, Clone, Copy, PartialEq, Eq)]
pub struct Span {
    pub start: usize,
    pub end: usize,
}

impl Span {
    /// Whether the span lies in a chunk of `len` bytes.
    pub open spec fn fits(self, len: nat) -> bool {
        self.start <= self.end <= len
    }

    /// The bytes of `haystack` that the span covers; none where the span
    /// does not lie in `haystack`.
    pub open spec fn text(self, haystack: Seq<u8>) -> Seq<u8> {
        if self.fits(haystack.len()) {
            haystack.subrange(self.start as int, self.end as int)
        } else {
            Seq::empty()
        }
    }

    /// The bytes of `haystack` that the span covers; none where the span
    /// does not lie in `haystack`.
    pub fn slice<'a>(&self, haystack: &'a [u8]) -> (r: &'a [u8])
        ensures
            r@ == self.text(haystack@),
    {
        if self.start <= self.end && self.end <= haystack.len() {
            slice_subrange(haystack, self.start, self.end)
        } else {
            slice_subrange(haystack, 0, 0)
        }
    }
}

/// Where a progress line and its fields stand in a chunk.
#[derive(Debug, Clone, Copy, PartialEq, Eq)]
pub struct ProgressCaptures {
    /// The whole progress line.
    pub matched: Span,
    /// The percentage.
    pub pct: Span,
    /// The instantaneous rate, where the line reports it.
    pub fps: Option<Span>,
    /// The running-average rate, where the line reports it.
    pub avg_fps: Option<Span>,
    /// The estimated time remaining, where the line reports it.
    pub eta: Option<Span>,
}

/// The capture group of a progress line that goes by `name`: `pct`, `fps`,
/// `avg_fps` or `eta`; none for a group that took no part in the match, and
/// for any other name.
pub open spec fn named_group(caps: ProgressCaptures, name: Seq<char>) -> Option<Span> {
    if name == "pct"@ {
        Some(caps.pct)
    } else if name == "fps"@ {
        caps.fps
    } else if name == "avg_fps"@ {
        caps.avg_fps
    } else if name == "eta"@ {
        caps.eta
    } else {
        None
    }
}

impl ProgressCaptures {
    /// The capture group that goes by `name`.
    pub fn name(&self, name: &str) -> (r: Option<Span>)
        ensures
            r == named_group(*self, name@),
    {
        if same_text(name, "pct") {
            Some(self.pct)
        } else if same_text(name, "fps") {
            self.fps
        } else if same_text(name, "avg_fps") {
            self.avg_fps
        } else if same_text(name, "eta") {
            self.eta
        } else {
            None
        }
    }
}

/// The span that stands for a pair of offsets.
pub open spec fn span_of(offsets: (usize, usize)) -> Span {
    Span { start: offsets.0, end: offsets.1 }
}

/// The span of an optional capture group.
pub open spec fn optional_span(group: Option<(usize, usize)>) -> Option<Span> {
    match group {
        Some(offsets) => Some(span_of(offsets)),
        None => None,
    }
}

/// Whether a capture group, where it took part, lies in a chunk of `len`
/// bytes.
pub open spec fn group_fits(group: Option<(usize, usize)>, len: nat) -> bool {
    match group {
        Some(offsets) => span_of(offsets).fits(len),
        None => true,
    }
}

/// Whether the offsets of the capture groups are those of a progress line in
/// a chunk of `len` bytes: one entry per group of [`PROGRESS_PATTERN`], the
/// whole match and the percentage present, every group inside the chunk.
pub open spec fn spans_well_formed(spans: Seq<Option<(usize, usize)>>, len: nat) -> bool {
    &&& spans.len() == GROUP_COUNT
    &&& spans[0] is Some
    &&& spans[GROUP_PCT as int] is Some
    &&& forall|i: int| 0 <= i < spans.len() ==> group_fits(#[trigger] spans[i], len)
}

/// The progress line that the offsets of the capture groups describe; none
/// where they are not well formed.
pub open spec fn captures_of(spans: Seq<Option<(usize, usize)>>, len: nat) -> Option<
    ProgressCaptures,
> {
    if spans_well_formed(spans, len) {
        Some(
            ProgressCaptures {
                matched: span_of(spans[0]->0),
                pct: span_of(spans[GROUP_PCT as int]->0),
                fps: optional_span(spans[GROUP_FPS as int]),
                avg_fps: optional_span(spans[GROUP_AVG_FPS as int]),
                eta: optional_span(spans[GROUP_ETA as int]),
            },
        )
    } else {
        None
    }
}

/// The leftmost progress line in `haystack`, as [`PROGRESS_PATTERN`] finds
/// it; none where the chunk holds no progress line.
pub open spec fn progress_captures(haystack: Seq<u8>) -> Option<ProgressCaptures> {
    match regex_new(PROGRESS_PATTERN@) {
        Some(re) => match regex_captures(re, haystack) {
            Some(spans) => captures_of(spans, haystack.len()),
            None => None,
        },
        None => None,
    }
}

fn group_in_bounds(group: &Option<(usize, usize)>, len: usize) -> (r: bool)
    ensures
        r == group_fits(*group, len as nat),
{
    match group {
        Some(offsets) => offsets.0 <= offsets.1 && offsets.1 <= len,
        None => true,
    }
}

fn group_span(group: &Option<(usize, usize)>) -> (r: Option<Span>)
    ensures
        r == optional_span(*group),
{
    match group {
        Some(offsets) => Some(Span { start: offsets.0, end: offsets.1 }),
        None => None,
    }
}

/// Reads the offsets of the capture groups of one match as a progress line
/// in a chunk of `len` bytes.
pub fn read_captures(spans: &Vec<Option<(usize, usize)>>, len: usize) -> (r: Option<
    ProgressCaptures,
>)
    ensures
        r == captures_of(spans@, len as nat),
{
    if spans.len() != GROUP_COUNT {
        return None;
    }
    let mut i: usize = 0;
    while i < GROUP_COUNT
        invariant
            i <= GROUP_COUNT,
            spans.len() == GROUP_COUNT,
            forall|k: int| 0 <= k < i ==> group_fits(#[trigger] spans[k], len as nat),
        decreases GROUP_COUNT - i,
    {
        if !group_in_bounds(&spans[i], len) {
            return None;
        }
        i = i + 1;
    }
    let matched = group_span(&spans[0]);
    let pct = group_span(&spans[GROUP_PCT]);
    match (matched, pct) {
        (Some(matched), Some(pct)) => Some(
            ProgressCaptures {
                matched,
                pct,
                fps: group_span(&spans[GROUP_FPS]),
                avg_fps: group_span(&spans[GROUP_AVG_FPS]),
                eta: group_span(&spans[GROUP_ETA]),
            },
        ),
        _ => None,
    }
}

/// Whether `b` is an ASCII decimal digit.
pub open spec fn is_digit(b: u8) -> bool {
    48 <= b <= 57
}

/// Whether every byte of `s` is an ASCII decimal digit.
pub open spec fn all_digits(s: Seq<u8>) -> bool {
    forall|i: int| 0 <= i < s.len() ==> is_digit(#[trigger] s[i])
}

/// The number that the ASCII decimal digits of `s` write.
pub open spec fn digits_value(s: Seq<u8>) -> nat
    decreases s.len(),
{
    if s.len() == 0 {
        0
    } else {
        digits_value(s.drop_last()) * 10 + (s.last() - 48) as nat
    }
}

/// Whether `s` writes a figure with two decimal places: one or more ASCII
/// digits, a point, two ASCII digits.
pub open spec fn is_two_decimal(s: Seq<u8>) -> bool {
    &&& s.len() >= 4
    &&& all_digits(s.take(s.len() - 3))
    &&& s[s.len() - 3] == 46
    &&& is_digit(s[s.len() - 2])
    &&& is_digit(s[s.len() - 1])
}

/// The count of hundredths that a figure with two decimal places writes.
pub open spec fn two_decimal_value(s: Seq<u8>) -> nat {
    digits_value(s.take(s.len() - 3)) * 100 + digits_value(s.skip(s.len() - 2))
}

/// What a captured figure reads as: its count of hundredths, held at
/// `u64::MAX` where it is larger; zero where the text is no figure with two
/// decimal places.
pub open spec fn hundredths_of(s: Seq<u8>) -> u64 {
    if !is_two_decimal(s) {
        0
    } else if two_decimal_value(s) <= u64::MAX {
        two_decimal_value(s) as u64
    } else {
        u64::MAX
    }
}

/// The number that the two bytes of `s` from `at` on write, where both are
/// ASCII digits; zero where they are not, or where `s` is too short.
pub open spec fn two_digit_field(s: Seq<u8>, at: int) -> nat {
    if at + 2 <= s.len() && is_digit(s[at]) && is_digit(s[at + 1]) {
        ((s[at] - 48) * 10 + (s[at + 1] - 48)) as nat
    } else {
        0
    }
}

/// The seconds that an `HHhMMmSSs` token stands for: `h * 3600 + m * 60 + s`,
/// a sub-field that is not two ASCII digits counting as zero.
pub open spec fn eta_seconds(s: Seq<u8>) -> nat {
    two_digit_field(s, 0) * 3600 + two_digit_field(s, 3) * 60 + two_digit_field(s, 6)
}

/// The figure in an optional capture group of `haystack`.
pub open spec fn captured_figure(haystack: Seq<u8>, group: Option<Span>) -> Option<Hundredths> {
    match group {
        Some(span) => Some(Hundredths { value: hundredths_of(span.text(haystack)) }),
        None => None,
    }
}

/// The figure in an optional capture group of `haystack`, zero where the
/// group took no part in the match.
pub open spec fn captured_figure_or_zero(haystack: Seq<u8>, group: Option<Span>) -> Hundredths {
    match captured_figure(haystack, group) {
        Some(figure) => figure,
        None => Hundredths { value: 0 },
    }
}

/// The time remaining in an optional capture group of `haystack`.
pub open spec fn captured_eta(haystack: Seq<u8>, group: Option<Span>) -> Option<u64> {
    match group {
        Some(span) => Some(eta_seconds(span.text(haystack)) as u64),
        None => None,
    }
}

/// The progress update that the progress line at `caps` in `haystack`
/// reports.
pub open spec fn progress_of(haystack: Seq<u8>, caps: ProgressCaptures) -> Progress {
    Progress {
        percentage: captured_figure_or_zero(haystack, Some(caps.pct)),
        fps: captured_figure_or_zero(haystack, caps.fps),
        avg_fps: captured_figure(haystack, caps.avg_fps),
        eta: captured_eta(haystack, caps.eta),
    }
}

/// `haystack` without its progress lines: the leftmost one is cut out, then
/// the leftmost one of what follows it, and so on.
pub open spec fn without_progress(haystack: Seq<u8>) -> Seq<u8>
    decreases haystack.len(),
{
    match progress_captures(haystack) {
        Some(caps) => if caps.matched.fits(haystack.len()) && caps.matched.start
            < caps.matched.end {
            haystack.take(caps.matched.start as int) + without_progress(
                haystack.skip(caps.matched.end as int),
            )
        } else {
            haystack
        },
        None => haystack,
    }
}

fn byte_is_digit(b: u8) -> (r: bool)
    ensures
        r == is_digit(b),
{
    48 <= b && b <= 57
}

proof fn lemma_digits_value_grows(s: Seq<u8>, i: int)
    requires
        0 <= i < s.len(),
        is_digit(s[i]),
    ensures
        digits_value(s.take(i + 1)) == digits_value(s.take(i)) * 10 + (s[i] - 48),
        digits_value(s.take(i + 1)) >= digits_value(s.take(i)),
{
    assert(s.take(i + 1).drop_last() =~= s.take(i));
    assert(s.take(i + 1).last() == s[i]);
}

/// Reads a figure with two decimal places as its count of hundredths.
pub fn parse_hundredths(text: &[u8]) -> (r: u64)
    ensures
        r == hundredths_of(text@),
{
    let n = text.len();
    if n < 4 {
        return 0;
    }
    if text[n - 3] != 46 || !byte_is_digit(text[n - 2]) || !byte_is_digit(text[n - 1]) {
        return 0;
    }
    let ghost whole = text@.take(n - 3);
    let mut acc: Option<u64> = Some(0);
    let mut i: usize = 0;
    while i < n - 3
        invariant
            n == text.len(),
            n >= 4,
            i <= n - 3,
            whole == text@.take(n - 3),
            all_digits(whole.take(i as int)),
            match acc {
                Some(v) => v == digits_value(whole.take(i as int)),
                None => digits_value(whole.take(i as int)) > u64::MAX,
            },
        decreases n - 3 - i,
    {
        let b = text[i];
        if !byte_is_digit(b) {
            proof {
                assert(whole[i as int] == b);
                assert(!all_digits(whole));
            }
            return 0;
        }
        proof {
            assert(whole[i as int] == b);
            lemma_digits_value_grows(whole, i as int);
            assert forall|k: int| 0 <= k < i + 1 implies is_digit(
                #[trigger] whole.take(i + 1)[k],
            ) by {
                if k < i {
                    assert(whole.take(i as int)[k] == whole.take(i + 1)[k]);
                }
            }
        }
        acc = match acc {
            Some(v) => match v.checked_mul(10) {
                Some(tens) => tens.checked_add((b - 48) as u64),
                None => None,
            },
            None => None,
        };
        i = i + 1;
    }
    proof {
        assert(whole.take(i as int) =~= whole);
        let cents = text@.skip(n - 2);
        let tens = cents.drop_last();
        assert(tens.drop_last() =~= Seq::<u8>::empty());
        assert(digits_value(tens.drop_last()) == 0);
        assert(tens.last() == text@[n - 2]);
        assert(digits_value(tens) == (text@[n - 2] - 48) as nat);
        assert(cents.last() == text@[n - 1]);
        assert(digits_value(cents) == (text@[n - 2] - 48) * 10 + (text@[n - 1] - 48));
    }
    let cents: u64 = (text[n - 2] - 48) as u64 * 10 + (text[n - 1] - 48) as u64;
    match acc {
        Some(v) => match v.checked_mul(100) {
            Some(scaled) => match scaled.checked_add(cents) {
                Some(total) => total,
                None => u64::MAX,
            },
            None => u64::MAX,
        },
        None => {
            assert(two_decimal_value(text@) > u64::MAX) by (nonlinear_arith)
                requires
                    two_decimal_value(text@) == digits_value(whole) * 100 + digits_value(
                        text@.skip(n - 2),
                    ),
                    digits_value(whole) > u64::MAX,
            ;
            u64::MAX
        },
    }
}

/// Reads the figure of an optional capture group: none where the group
/// took no part in the match, else the figure that the captured text
/// writes, zero where the text writes none.
pub fn parse_caps(haystack: &[u8], group: Option<Span>) -> (r: Option<Hundredths>)
    ensures
        r == captured_figure(haystack@, group),
{
    match group {
        Some(span) => Some(Hundredths { value: parse_hundredths(span.slice(haystack)) }),
        None => None,
    }
}

fn two_digits_at(token: &[u8], at: usize) -> (r: u64)
    requires
        at <= 6,
    ensures
        r == two_digit_field(token@, at as int),
        r <= 99,
{
    if at + 2 <= token.len() && byte_is_digit(token[at]) && byte_is_digit(token[at + 1]) {
        (token[at] - 48) as u64 * 10 + (token[at + 1] - 48) as u64
    } else {
        0
    }
}

/// Reads HandBrake's `HHhMMmSSs` time remaining as a number of seconds.
pub fn parse_eta(token: &[u8]) -> (r: u64)
    ensures
        r == eta_seconds(token@),
{
    let h = two_digits_at(token, 0);
    let m = two_digits_at(token, 3);
    let s = two_digits_at(token, 6);
    h * 3600 + m * 60 + s
}

/// Builds the progress update that the progress line at `caps` in
/// `haystack` reports. A field that the line does not report is absent, but
/// for the instantaneous rate, which is zero then.
pub fn progress_event(haystack: &[u8], caps: &ProgressCaptures) -> (r: Progress)
    ensures
        r == progress_of(haystack@, *caps),
{
    let percentage = Hundredths { value: parse_hundredths(caps.pct.slice(haystack)) };
    let fps = match parse_caps(haystack, caps.fps) {
        Some(figure) => figure,
        None => Hundredths { value: 0 },
    };
    let avg_fps = parse_caps(haystack, caps.avg_fps);
    let eta = match caps.eta {
        Some(span) => Some(parse_eta(span.slice(haystack))),
        None => None,
    };
    Progress { percentage, fps, avg_fps, eta }
}

/// The bytes that write ASCII text.
pub open spec fn ascii(text: Seq<char>) -> Seq<u8> {
    text.map_values(|c: char| c as u8)
}

/// The text of a figure with two decimal places: the decimal numeral of
/// `whole`, a point, and the two digits of `cents`.
pub open spec fn figure_literal(whole: nat, cents: nat) -> Seq<u8> {
    ascii(decimal(whole)) + seq![46u8, (48 + cents / 10) as u8, (48 + cents % 10) as u8]
}

/// The `HHhMMmSSs` token of `h` hours, `m` minutes and `s` seconds.
pub open spec fn eta_literal(h: nat, m: nat, s: nat) -> Seq<u8> {
    seq![
        (48 + h / 10) as u8,
        (48 + h % 10) as u8,
        104u8,
        (48 + m / 10) as u8,
        (48 + m % 10) as u8,
        109u8,
        (48 + s / 10) as u8,
        (48 + s % 10) as u8,
        115u8,
    ]
}

/// The count of hundredths `n`, held at `u64::MAX` where it is larger.
pub open spec fn held_at_max(n: nat) -> u64 {
    if n <= u64::MAX {
        n as u64
    } else {
        u64::MAX
    }
}

/// The decimal numeral of a number is made of ASCII digits, and they write
/// that number.
pub proof fn lemma_decimal_writes_number(n: nat)
    ensures
        all_digits(ascii(decimal(n))),
        digits_value(ascii(decimal(n))) == n,
        ascii(decimal(n)).len() >= 1,
    decreases n,
{
    let text = ascii(decimal(n));
    if n < 10 {
        assert(text =~= seq![(48 + n) as u8]);
        assert(text.drop_last() =~= Seq::<u8>::empty());
        assert(digits_value(text.drop_last()) == 0);
    } else {
        lemma_decimal_writes_number(n / 10);
        let front = ascii(decimal(n / 10));
        assert(text =~= front.push((48 + n % 10) as u8));
        assert(text.drop_last() =~= front);
        assert forall|i: int| 0 <= i < text.len() implies is_digit(#[trigger] text[i]) by {
            if i < front.len() {
                assert(text[i] == front[i]);
            }
        }
    }
}

/// A figure is read as the number that its text writes: the numeral of
/// `whole`, a point and the two digits of `cents` read as
/// `whole * 100 + cents` hundredths, held at `u64::MAX` where that is
/// larger.
pub proof fn lemma_figure_reads_literal(whole: nat, cents: nat)
    requires
        cents < 100,
    ensures
        is_two_decimal(figure_literal(whole, cents)),
        two_decimal_value(figure_literal(whole, cents)) == whole * 100 + cents,
        hundredths_of(figure_literal(whole, cents)) == held_at_max(whole * 100 + cents),
{
    lemma_decimal_writes_number(whole);
    let front = ascii(decimal(whole));
    let text = figure_literal(whole, cents);
    assert(text.len() == front.len() + 3);
    assert(text.take(text.len() - 3) =~= front);
    let back = text.skip(text.len() - 2);
    assert(back =~= seq![(48 + cents / 10) as u8, (48 + cents % 10) as u8]);
    let tens = back.drop_last();
    assert(tens =~= seq![(48 + cents / 10) as u8]);
    assert(tens.drop_last() =~= Seq::<u8>::empty());
    assert(digits_value(tens.drop_last()) == 0);
    assert(digits_value(tens) == cents / 10);
    assert(digits_value(back) == cents);
}

/// The time remaining is read as the number that its token writes:
/// `h * 3600 + m * 60 + s` seconds.
pub proof fn lemma_eta_reads_literal(h: nat, m: nat, s: nat)
    requires
        h < 100,
        m < 100,
        s < 100,
    ensures
        eta_seconds(eta_literal(h, m, s)) == h * 3600 + m * 60 + s,
{
}

/// The figures of a progress update are those that the progress line
/// writes. Where the captured percentage, rates and time remaining are the
/// texts of given numbers, the update holds exactly those numbers: each
/// figure as its count of hundredths, the time as its count of seconds.
pub proof fn lemma_progress_reads_literals(
    haystack: Seq<u8>,
    caps: ProgressCaptures,
    pct: (nat, nat),
    fps: (nat, nat),
    avg_fps: (nat, nat),
    eta: (nat, nat, nat),
)
    requires
        pct.1 < 100 && fps.1 < 100 && avg_fps.1 < 100,
        eta.0 < 100 && eta.1 < 100 && eta.2 < 100,
        caps.pct.text(haystack) == figure_literal(pct.0, pct.1),
        caps.fps is Some && caps.fps->0.text(haystack) == figure_literal(fps.0, fps.1),
        caps.avg_fps is Some && caps.avg_fps->0.text(haystack) == figure_literal(
            avg_fps.0,
            avg_fps.1,
        ),
        caps.eta is Some && caps.eta->0.text(haystack) == eta_literal(eta.0, eta.1, eta.2),
    ensures
        progress_of(haystack, caps) == (Progress {
            percentage: Hundredths { value: held_at_max(pct.0 * 100 + pct.1) },
            fps: Hundredths { value: held_at_max(fps.0 * 100 + fps.1) },
            avg_fps: Some(Hundredths { value: held_at_max(avg_fps.0 * 100 + avg_fps.1) }),
            eta: Some((eta.0 * 3600 + eta.1 * 60 + eta.2) as u64),
        }),
{
    lemma_figure_reads_literal(pct.0, pct.1);
    lemma_figure_reads_literal(fps.0, fps.1);
    lemma_figure_reads_literal(avg_fps.0, avg_fps.1);
    lemma_eta_reads_literal(eta.0, eta.1, eta.2);
}

/// A progress line that reports the percentage alone gives an update
/// without average rate and without time remaining, and with a rate of
/// zero.
pub proof fn lemma_percentage_only(haystack: Seq<u8>, caps: ProgressCaptures)
    requires
        caps.fps is None,
        caps.avg_fps is None,
        caps.eta is None,
    ensures
        progress_of(haystack, caps).avg_fps is None,
        progress_of(haystack, caps).eta is None,
        progress_of(haystack, caps).fps == (Hundredths { value: 0 }),
{
}

/// The compiled progress pattern.
pub struct ProgressPattern {
    re: regex::bytes::Regex,
}

impl ProgressPattern {
    #[verifier::type_invariant]
    spec fn compiled_from_pattern(self) -> bool {
        regex_new(PROGRESS_PATTERN@) == Some(self.re)
    }

    /// Compiles [`PROGRESS_PATTERN`]. Fails with [`Error::Unknown`] exactly
    /// where the `regex` crate refuses the pattern.
    pub fn new() -> (r: Result<ProgressPattern, Error>)
        ensures
            r is Ok <==> regex_new(PROGRESS_PATTERN@) is Some,
            r matches Err(e) ==> e@ == crate::error::ErrorView::Unknown,
    {
        match regex_compile(PROGRESS_PATTERN) {
            Some(re) => Ok(ProgressPattern { re }),
            None => Err(Error::Unknown),
        }
    }

    /// Finds the leftmost progress line in `haystack`.
    pub fn captures(&self, haystack: &[u8]) -> (r: Option<ProgressCaptures>)
        ensures
            r == progress_captures(haystack@),
    {
        proof {
            use_type_invariant(self);
        }
        match regex_capture_spans(&self.re, haystack) {
            Some(spans) => read_captures(&spans, haystack.len()),
            None => None,
        }
    }

    /// Copies `haystack` without its progress lines.
    pub fn strip(&self, haystack: &[u8]) -> (r: Vec<u8>)
        ensures
            r@ == without_progress(haystack@),
    {
        let mut out: Vec<u8> = Vec::new();
        let mut rest: &[u8] = haystack;
        loop
            invariant_except_break
                out@ + without_progress(rest@) == without_progress(haystack@),
            ensures
                out@ == without_progress(haystack@),
            decreases rest.len(),
        {
            let found = self.captures(rest);
            let cut = match found {
                Some(caps) => if caps.matched.start < caps.matched.end && caps.matched.end
                    <= rest.len() {
                    Some(caps.matched)
                } else {
                    None
                },
                None => None,
            };
            match cut {
                Some(span) => {
                    let ghost before = out@;
                    let ghost whole = rest@;
                    out.extend_from_slice(slice_subrange(rest, 0, span.start));
                    rest = slice_subrange(rest, span.end, rest.len());
                    proof {
                        assert(whole.subrange(0, span.start as int) =~= whole.take(
                            span.start as int,
                        ));
                        assert(rest@ =~= whole.skip(span.end as int));
                        assert(out@ + without_progress(rest@) =~= before + without_progress(
                            whole,
                        ));
                    }
                },
                None => {
                    let ghost before = out@;
                    out.extend_from_slice(rest);
                    proof {
                        assert(without_progress(rest@) == rest@);
                        assert(out@ =~= before + rest@);
                    }
                    break ;
                },
            }
        }
        out
    }
}

} // verus!
