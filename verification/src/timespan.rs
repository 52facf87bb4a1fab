//! Non-negative durations with race-specific parsing and formatting.
//!
//! A `TimeSpan` holds whole seconds plus a sub-second nanosecond part, the
//! same normalized shape `std::time::Duration` uses, and is viewed in
//! specifications as its total length in nanoseconds.

use vstd::prelude::*;
use vstd::string::StrSliceExecFns;
use vstd::string::StringExecFns;

verus! {

/// Total nanoseconds a `TimeSpan` can hold: `2^64` seconds.
pub open spec fn nano_limit() -> int {
    0x10000000000000000int * 1_000_000_000
}

/// A non-negative duration. Formats as `MM:SS` below one hour and `H:MM:SS`
/// at or above; parses the same shapes back.
#[derive(Clone, Copy, Debug, PartialEq, Eq, Structural)]
pub struct TimeSpan {
    secs: u64,
    nanos: u32,
}

/// Why a string failed to parse as a `TimeSpan`.
#[derive(Clone, Copy, Debug, PartialEq, Eq, Structural)]
pub enum ParseError {
    Empty,
    Bogus,
}

impl View for TimeSpan {
    type V = int;

    closed spec fn view(&self) -> int {
        self.secs * 1_000_000_000 + self.nanos
    }
}

/// A duration's view is never negative, whatever its parts hold.
pub broadcast proof fn lemma_timespan_view_nonneg(t: TimeSpan)
    ensures
        #[trigger] t@ >= 0,
{
    assert(t.secs * 1_000_000_000 >= 0) by (nonlinear_arith);
}

impl TimeSpan {
    #[verifier::type_invariant]
    closed spec fn inv(self) -> bool {
        self.nanos < 1_000_000_000
    }

    /// The zero-length duration.
    pub fn zero() -> (r: TimeSpan)
        ensures
            r@ == 0,
    {
        TimeSpan { secs: 0, nanos: 0 }
    }

    /// Builds a duration from seconds and nanoseconds; nanoseconds at or
    /// above one second carry into the seconds part.
    pub fn new(secs: u64, nanos: u32) -> (r: TimeSpan)
        requires
            secs + nanos / 1_000_000_000 <= u64::MAX,
        ensures
            r@ == secs * 1_000_000_000 + nanos,
    {
        let carry: u32 = nanos / 1_000_000_000;
        let rest: u32 = nanos % 1_000_000_000;
        let r = TimeSpan { secs: secs + carry as u64, nanos: rest };
        proof {
            assert(r@ == secs * 1_000_000_000 + nanos) by (nonlinear_arith)
                requires
                    carry == nanos / 1_000_000_000,
                    rest == nanos % 1_000_000_000,
                    r.secs == secs + carry,
                    r.nanos == rest,
                    r@ == r.secs * 1_000_000_000 + r.nanos,
            ;
        }
        r
    }

    /// Builds a duration from a whole number of microseconds.
    pub fn from_micros(us: u64) -> (r: TimeSpan)
        ensures
            r@ == us * 1000,
    {
        let secs: u64 = us / 1_000_000;
        let sub: u32 = ((us % 1_000_000) * 1000) as u32;
        let r = TimeSpan { secs, nanos: sub };
        proof {
            assert(r@ == us * 1000) by (nonlinear_arith)
                requires
                    secs == us / 1_000_000,
                    sub == (us % 1_000_000) * 1000,
                    r@ == secs * 1_000_000_000 + sub,
            ;
        }
        r
    }

    /// Builds a duration from a whole number of milliseconds.
    pub fn from_millis(ms: u64) -> (r: TimeSpan)
        ensures
            r@ == ms * 1_000_000,
    {
        let secs: u64 = ms / 1000;
        let sub: u32 = ((ms % 1000) * 1_000_000) as u32;
        let r = TimeSpan { secs, nanos: sub };
        proof {
            assert(r@ == ms * 1_000_000) by (nonlinear_arith)
                requires
                    secs == ms / 1000,
                    sub == (ms % 1000) * 1_000_000,
                    r@ == secs * 1_000_000_000 + sub,
            ;
        }
        r
    }

    /// Whole seconds, rounding the sub-second part down.
    pub fn as_secs(&self) -> (r: u64)
        ensures
            r == self@ / 1_000_000_000,
    {
        proof {
            use_type_invariant(self);
            assert(self@ / 1_000_000_000 == self.secs) by (nonlinear_arith)
                requires
                    self@ == self.secs * 1_000_000_000 + self.nanos,
                    self.nanos < 1_000_000_000,
            ;
        }
        self.secs
    }

    /// The sub-second part, in nanoseconds.
    pub fn subsec_nanos(&self) -> (r: u32)
        ensures
            r == self@ % 1_000_000_000,
    {
        proof {
            use_type_invariant(self);
            assert(self@ % 1_000_000_000 == self.nanos) by (nonlinear_arith)
                requires
                    self@ == self.secs * 1_000_000_000 + self.nanos,
                    self.nanos < 1_000_000_000,
            ;
        }
        self.nanos
    }

    /// The whole duration in nanoseconds.
    pub fn total_nanos(&self) -> (r: u128)
        ensures
            r == self@,
    {
        proof {
            use_type_invariant(self);
        }
        self.secs as u128 * 1_000_000_000 + self.nanos as u128
    }

    /// Whole milliseconds, rounding down.
    pub fn as_millis(&self) -> (r: u128)
        ensures
            r == self@ / 1_000_000,
    {
        proof {
            use_type_invariant(self);
        }
        let total: u128 = self.secs as u128 * 1_000_000_000 + self.nanos as u128;
        let r = total / 1_000_000;
        proof {
            assert(total / 1_000_000 <= total);
        }
        r as u128
    }

    /// The sum of two durations.
    pub fn plus(self, rhs: TimeSpan) -> (r: TimeSpan)
        requires
            self@ + rhs@ < nano_limit(),
        ensures
            r@ == self@ + rhs@,
    {
        proof {
            use_type_invariant(self);
            use_type_invariant(rhs);
        }
        let ns: u32 = self.nanos + rhs.nanos;
        if ns >= 1_000_000_000 {
            TimeSpan { secs: self.secs + rhs.secs + 1, nanos: ns - 1_000_000_000 }
        } else {
            TimeSpan { secs: self.secs + rhs.secs, nanos: ns }
        }
    }

    /// The difference of two durations; the subtrahend must not exceed self.
    pub fn minus(self, rhs: TimeSpan) -> (r: TimeSpan)
        requires
            rhs@ <= self@,
        ensures
            r@ == self@ - rhs@,
    {
        proof {
            use_type_invariant(self);
            use_type_invariant(rhs);
        }
        if self.nanos >= rhs.nanos {
            TimeSpan { secs: self.secs - rhs.secs, nanos: self.nanos - rhs.nanos }
        } else {
            TimeSpan {
                secs: self.secs - rhs.secs - 1,
                nanos: 1_000_000_000 + self.nanos - rhs.nanos,
            }
        }
    }

    /// The duration scaled by an integer factor.
    pub fn times(self, k: u32) -> (r: TimeSpan)
        requires
            self@ * k < nano_limit(),
        ensures
            r@ == self@ * k,
    {
        proof {
            use_type_invariant(self);
        }
        let total: u128 = (self.secs as u128 * 1_000_000_000 + self.nanos as u128) * k as u128;
        proof {
            assert(total == self@ * k) by (nonlinear_arith)
                requires
                    total == (self.secs * 1_000_000_000 + self.nanos) * k,
                    self@ == self.secs * 1_000_000_000 + self.nanos,
            ;
        }
        Self::of_total_nanos(total)
    }

    /// The duration divided by an integer factor, rounding down to whole
    /// nanoseconds.
    pub fn div_by(self, k: u32) -> (r: TimeSpan)
        requires
            k > 0,
        ensures
            r@ == self@ / (k as int),
    {
        proof {
            use_type_invariant(self);
        }
        let total: u128 = (self.secs as u128 * 1_000_000_000 + self.nanos as u128) / k as u128;
        proof {
            assert(self@ / (k as int) <= self@ < nano_limit());
        }
        Self::of_total_nanos(total)
    }

    /// Rebuilds the normalized shape from a total nanosecond count.
    fn of_total_nanos(total: u128) -> (r: TimeSpan)
        requires
            total < nano_limit(),
        ensures
            r@ == total,
    {
        let secs: u64 = (total / 1_000_000_000) as u64;
        let nanos: u32 = (total % 1_000_000_000) as u32;
        let r = TimeSpan { secs, nanos };
        proof {
            assert(total / 1_000_000_000 < 0x10000000000000000) by (nonlinear_arith)
                requires
                    total < nano_limit(),
            ;
            assert(r@ == total) by (nonlinear_arith)
                requires
                    secs == total / 1_000_000_000,
                    nanos == total % 1_000_000_000,
                    r@ == secs * 1_000_000_000 + nanos,
            ;
        }
        r
    }

    /// The shorter of two durations.
    pub fn min(&self, rhs: TimeSpan) -> (r: TimeSpan)
        ensures
            r@ == if self@ <= rhs@ {
                self@
            } else {
                rhs@
            },
    {
        proof {
            use_type_invariant(self);
            use_type_invariant(rhs);
        }
        if self.secs < rhs.secs || (self.secs == rhs.secs && self.nanos <= rhs.nanos) {
            *self
        } else {
            rhs
        }
    }

    /// Whether this duration is no longer than the other.
    pub fn le(&self, rhs: &TimeSpan) -> (r: bool)
        ensures
            r == (self@ <= rhs@),
    {
        proof {
            use_type_invariant(self);
            use_type_invariant(rhs);
        }
        self.secs < rhs.secs || (self.secs == rhs.secs && self.nanos <= rhs.nanos)
    }

    /// Builds a duration from a standard-library duration, keeping its
    /// whole seconds and sub-second part.
    pub fn of(d: std::time::Duration) -> TimeSpan {
        let secs = duration_secs(&d);
        let nanos = duration_subsec_nanos(&d);
        TimeSpan::new(secs, nanos)
    }

    /// Renders the duration, ignoring the sub-second part: `MM:SS` below one
    /// hour, `H:MM:SS` at or above.
    pub fn display(&self) -> (r: String)
        ensures
            r@ == spec_format(self@ / 1_000_000_000),
    {
        let secs = self.as_secs();
        let mut r = String::new();
        if secs < 3600 {
            push_two_digits(&mut r, secs / 60);
            push_colon(&mut r);
            push_two_digits(&mut r, secs % 60);
        } else {
            push_dec(&mut r, secs / 3600);
            push_colon(&mut r);
            push_two_digits(&mut r, (secs % 3600) / 60);
            push_colon(&mut r);
            push_two_digits(&mut r, secs % 60);
        }
        proof {
            assert(r@ =~= spec_format(self@ / 1_000_000_000));
        }
        r
    }

    /// Parses `MM:SS` or `H:MM:SS` (one or two hour digits, two digits for
    /// minutes and for seconds), with whitespace allowed at either end.
    pub fn parse(s: &str) -> (r: Result<TimeSpan, ParseError>)
        ensures
            spec_parse(s@) is Some ==> r is Ok && (r->Ok_0)@ == spec_parse(s@)->Some_0 * 1_000_000_000,
            spec_parse(s@) is None ==> r == Err::<TimeSpan, ParseError>(ParseError::Empty),
    {
        let n = s.unicode_len();
        let mut i: usize = 0;
        while i < n && is_ws_char(s.get_char(i))
            invariant
                i <= n,
                n == s@.len(),
                forall|k: int| 0 <= k < i ==> is_ws(s@[k]),
            decreases n - i,
        {
            i += 1;
        }
        proof {
            lemma_leading_ws_from_bounds(s@, i as int);
        }
        if i == n {
            proof {
                assert(spec_trimmed(s@) =~= Seq::<char>::empty());
            }
            return Err(ParseError::Empty);
        }
        let mut j: usize = n;
        while j > i && is_ws_char(s.get_char(j - 1))
            invariant
                i < j <= n,
                n == s@.len(),
                i < n,
                !is_ws(s@[i as int]),
                forall|k: int| j <= k < n ==> is_ws(s@[k]),
            decreases j,
        {
            j -= 1;
        }
        proof {
            assert(j > i);
            lemma_trailing_ws_from_bounds(s@, j as int);
            assert(spec_trimmed(s@) =~= s@.subrange(i as int, j as int));
        }
        let m = j - i;
        let ghost t = s@.subrange(i as int, j as int);
        if m == 5 {
            let d0 = digit_of(s.get_char(i));
            let d1 = digit_of(s.get_char(i + 1));
            let c2 = s.get_char(i + 2);
            let d3 = digit_of(s.get_char(i + 3));
            let d4 = digit_of(s.get_char(i + 4));
            if d0 < 10 && d1 < 10 && c2 == ':' && d3 < 10 && d4 < 10 {
                let v: u64 = 60 * (10 * d0 + d1) + (10 * d3 + d4);
                return Ok(TimeSpan::new(v, 0));
            }
            Err(ParseError::Empty)
        } else if m == 7 {
            let d0 = digit_of(s.get_char(i));
            let c1 = s.get_char(i + 1);
            let d2 = digit_of(s.get_char(i + 2));
            let d3 = digit_of(s.get_char(i + 3));
            let c4 = s.get_char(i + 4);
            let d5 = digit_of(s.get_char(i + 5));
            let d6 = digit_of(s.get_char(i + 6));
            if d0 < 10 && c1 == ':' && d2 < 10 && d3 < 10 && c4 == ':' && d5 < 10 && d6 < 10 {
                let v: u64 = 3600 * d0 + 60 * (10 * d2 + d3) + (10 * d5 + d6);
                return Ok(TimeSpan::new(v, 0));
            }
            Err(ParseError::Empty)
        } else if m == 8 {
            let d0 = digit_of(s.get_char(i));
            let d1 = digit_of(s.get_char(i + 1));
            let c2 = s.get_char(i + 2);
            let d3 = digit_of(s.get_char(i + 3));
            let d4 = digit_of(s.get_char(i + 4));
            let c5 = s.get_char(i + 5);
            let d6 = digit_of(s.get_char(i + 6));
            let d7 = digit_of(s.get_char(i + 7));
            if d0 < 10 && d1 < 10 && c2 == ':' && d3 < 10 && d4 < 10 && c5 == ':' && d6 < 10
                && d7 < 10 {
                let v: u64 = 3600 * (10 * d0 + d1) + 60 * (10 * d3 + d4) + (10 * d6 + d7);
                return Ok(TimeSpan::new(v, 0));
            }
            Err(ParseError::Empty)
        } else {
            Err(ParseError::Empty)
        }
    }
}

impl std::str::FromStr for TimeSpan {
    type Err = ParseError;

    fn from_str(s: &str) -> Result<TimeSpan, ParseError> {
        TimeSpan::parse(s)
    }
}

/// The decimal digit characters in order, as a specification table.
pub open spec fn spec_digit_char(d: int) -> char {
    if d == 0 {
        '0'
    } else if d == 1 {
        '1'
    } else if d == 2 {
        '2'
    } else if d == 3 {
        '3'
    } else if d == 4 {
        '4'
    } else if d == 5 {
        '5'
    } else if d == 6 {
        '6'
    } else if d == 7 {
        '7'
    } else if d == 8 {
        '8'
    } else {
        '9'
    }
}

/// The numeric value of a decimal digit character, and 10 for anything else.
pub open spec fn spec_digit_val(c: char) -> int {
    if c == '0' {
        0
    } else if c == '1' {
        1
    } else if c == '2' {
        2
    } else if c == '3' {
        3
    } else if c == '4' {
        4
    } else if c == '5' {
        5
    } else if c == '6' {
        6
    } else if c == '7' {
        7
    } else if c == '8' {
        8
    } else if c == '9' {
        9
    } else {
        10
    }
}

pub open spec fn is_digit(c: char) -> bool {
    spec_digit_val(c) < 10
}

/// The whitespace accepted around a parsed duration: every character
/// with the Unicode white-space property.
pub open spec fn is_ws(c: char) -> bool {
    ||| c == '\u{9}'
    ||| c == '\u{a}'
    ||| c == '\u{b}'
    ||| c == '\u{c}'
    ||| c == '\u{d}'
    ||| c == ' '
    ||| c == '\u{85}'
    ||| c == '\u{a0}'
    ||| c == '\u{1680}'
    ||| c == '\u{2000}'
    ||| c == '\u{2001}'
    ||| c == '\u{2002}'
    ||| c == '\u{2003}'
    ||| c == '\u{2004}'
    ||| c == '\u{2005}'
    ||| c == '\u{2006}'
    ||| c == '\u{2007}'
    ||| c == '\u{2008}'
    ||| c == '\u{2009}'
    ||| c == '\u{200a}'
    ||| c == '\u{2028}'
    ||| c == '\u{2029}'
    ||| c == '\u{202f}'
    ||| c == '\u{205f}'
    ||| c == '\u{3000}'
}

/// A number below 100 as exactly two digit characters.
pub open spec fn spec_two_digits(n: int) -> Seq<char> {
    seq![spec_digit_char(n / 10), spec_digit_char(n % 10)]
}

/// A non-negative number in decimal, without leading zeros.
pub open spec fn spec_dec(n: int) -> Seq<char>
    decreases n,
{
    if n < 10 {
        seq![spec_digit_char(n)]
    } else {
        spec_dec(n / 10) + seq![spec_digit_char(n % 10)]
    }
}

/// How a duration of the given whole seconds renders: `MM:SS` below one
/// hour, `H:MM:SS` at or above.
pub open spec fn spec_format(secs: int) -> Seq<char> {
    if secs < 3600 {
        spec_two_digits(secs / 60) + seq![':'] + spec_two_digits(secs % 60)
    } else {
        spec_dec(secs / 3600) + seq![':'] + spec_two_digits((secs % 3600) / 60) + seq![':']
            + spec_two_digits(secs % 60)
    }
}

/// The number of whitespace characters at the front of `s`.
pub open spec fn spec_leading_ws(s: Seq<char>) -> int
    decreases s.len(),
{
    if s.len() > 0 && is_ws(s[0]) {
        1 + spec_leading_ws(s.drop_first())
    } else {
        0
    }
}

/// The number of whitespace characters at the back of `s`.
pub open spec fn spec_trailing_ws(s: Seq<char>) -> int
    decreases s.len(),
{
    if s.len() > 0 && is_ws(s[s.len() - 1]) {
        1 + spec_trailing_ws(s.drop_last())
    } else {
        0
    }
}

/// `s` with surrounding whitespace removed.
pub open spec fn spec_trimmed(s: Seq<char>) -> Seq<char> {
    if spec_leading_ws(s) == s.len() {
        Seq::empty()
    } else {
        s.subrange(spec_leading_ws(s), s.len() - spec_trailing_ws(s))
    }
}

pub open spec fn two_digit_val(t: Seq<char>, i: int) -> int {
    10 * spec_digit_val(t[i]) + spec_digit_val(t[i + 1])
}

/// The total seconds denoted by a whitespace-free duration string, if it is
/// one of the accepted shapes.
pub open spec fn spec_parse_core(t: Seq<char>) -> Option<int> {
    if t.len() == 5 && is_digit(t[0]) && is_digit(t[1]) && t[2] == ':' && is_digit(t[3])
        && is_digit(t[4]) {
        Some(60 * two_digit_val(t, 0) + two_digit_val(t, 3))
    } else if t.len() == 7 && is_digit(t[0]) && t[1] == ':' && is_digit(t[2]) && is_digit(t[3])
        && t[4] == ':' && is_digit(t[5]) && is_digit(t[6]) {
        Some(3600 * spec_digit_val(t[0]) + 60 * two_digit_val(t, 2) + two_digit_val(t, 5))
    } else if t.len() == 8 && is_digit(t[0]) && is_digit(t[1]) && t[2] == ':' && is_digit(t[3])
        && is_digit(t[4]) && t[5] == ':' && is_digit(t[6]) && is_digit(t[7]) {
        Some(3600 * two_digit_val(t, 0) + 60 * two_digit_val(t, 3) + two_digit_val(t, 6))
    } else {
        None
    }
}

/// The total seconds a string parses to, after trimming whitespace.
pub open spec fn spec_parse(s: Seq<char>) -> Option<int> {
    spec_parse_core(spec_trimmed(s))
}

/// A prefix of whitespace followed by a non-whitespace character (or the
/// string's end) pins down `spec_leading_ws`.
proof fn lemma_leading_ws_from_bounds(s: Seq<char>, p: int)
    requires
        0 <= p <= s.len(),
        forall|k: int| 0 <= k < p ==> is_ws(s[k]),
        p == s.len() || !is_ws(s[p]),
    ensures
        spec_leading_ws(s) == p,
    decreases s.len(),
{
    if s.len() > 0 && is_ws(s[0]) {
        lemma_leading_ws_from_bounds(s.drop_first(), p - 1);
    }
}

/// A suffix of whitespace preceded by a non-whitespace character pins down
/// `spec_trailing_ws`.
proof fn lemma_trailing_ws_from_bounds(s: Seq<char>, q: int)
    requires
        0 <= q <= s.len(),
        forall|k: int| q <= k < s.len() ==> is_ws(s[k]),
        q == 0 || !is_ws(s[q - 1]),
    ensures
        spec_trailing_ws(s) == s.len() - q,
    decreases s.len(),
{
    if s.len() > 0 && is_ws(s[s.len() - 1]) {
        assert(q < s.len());
        lemma_trailing_ws_from_bounds(s.drop_last(), q);
    }
}

/// Relies on `std::time::Duration::as_secs`: the duration's whole
/// seconds.
#[verifier::external_body]
fn duration_secs(d: &std::time::Duration) -> u64 {
    d.as_secs()
}

/// Relies on `std::time::Duration::subsec_nanos`: the duration's
/// sub-second part, documented to be below one billion nanoseconds.
#[verifier::external_body]
fn duration_subsec_nanos(d: &std::time::Duration) -> (r: u32)
    ensures
        r < 1_000_000_000,
{
    d.subsec_nanos()
}

/// Appends the separating colon.
fn push_colon(s: &mut String)
    ensures
        final(s)@ == old(s)@ + seq![':'],
{
    proof {
        reveal_strlit(":");
    }
    let frag: &str = ":";
    assert(frag@ =~= seq![':']);
    s.append(frag);
}

/// The digit character for a value below ten.
fn digit_str(d: u64) -> (r: &'static str)
    requires
        d < 10,
    ensures
        r@ =~= seq![spec_digit_char(d as int)],
{
    proof {
        reveal_strlit("0");
        reveal_strlit("1");
        reveal_strlit("2");
        reveal_strlit("3");
        reveal_strlit("4");
        reveal_strlit("5");
        reveal_strlit("6");
        reveal_strlit("7");
        reveal_strlit("8");
        reveal_strlit("9");
    }
    if d == 0 {
        "0"
    } else if d == 1 {
        "1"
    } else if d == 2 {
        "2"
    } else if d == 3 {
        "3"
    } else if d == 4 {
        "4"
    } else if d == 5 {
        "5"
    } else if d == 6 {
        "6"
    } else if d == 7 {
        "7"
    } else if d == 8 {
        "8"
    } else {
        "9"
    }
}

/// The numeric value of a digit character, or 10 when it is not a digit.
fn digit_of(c: char) -> (r: u64)
    ensures
        r == spec_digit_val(c),
{
    match c {
        '0' => 0,
        '1' => 1,
        '2' => 2,
        '3' => 3,
        '4' => 4,
        '5' => 5,
        '6' => 6,
        '7' => 7,
        '8' => 8,
        '9' => 9,
        _ => 10,
    }
}

/// Whether a character is whitespace the parser skips.
fn is_ws_char(c: char) -> (r: bool)
    ensures
        r == is_ws(c),
{
    match c {
        '\u{9}' | '\u{a}' | '\u{b}' | '\u{c}' | '\u{d}' | ' ' | '\u{85}' | '\u{a0}'
            | '\u{1680}' | '\u{2000}' | '\u{2001}' | '\u{2002}' | '\u{2003}' | '\u{2004}'
            | '\u{2005}' | '\u{2006}' | '\u{2007}' | '\u{2008}' | '\u{2009}' | '\u{200a}'
            | '\u{2028}' | '\u{2029}' | '\u{202f}' | '\u{205f}' | '\u{3000}' => true,
        _ => false,
    }
}

/// Appends a value below 100 as exactly two digits.
fn push_two_digits(s: &mut String, n: u64)
    requires
        n < 100,
    ensures
        final(s)@ == old(s)@ + spec_two_digits(n as int),
{
    s.append(digit_str(n / 10));
    s.append(digit_str(n % 10));
    proof {
        assert(final(s)@ =~= old(s)@ + spec_two_digits(n as int));
    }
}

/// Appends a value in decimal without leading zeros.
fn push_dec(s: &mut String, n: u64)
    ensures
        final(s)@ == old(s)@ + spec_dec(n as int),
    decreases n,
{
    if n < 10 {
        s.append(digit_str(n));
        proof {
            assert(final(s)@ =~= old(s)@ + spec_dec(n as int));
        }
    } else {
        push_dec(s, n / 10);
        s.append(digit_str(n % 10));
        proof {
            assert(final(s)@ =~= old(s)@ + spec_dec(n as int));
        }
    }
}

/// A digit character reads back as the digit it was made from, and is
/// neither whitespace nor a colon.
proof fn lemma_digit_char(d: int)
    requires
        0 <= d < 10,
    ensures
        spec_digit_val(spec_digit_char(d)) == d,
        is_digit(spec_digit_char(d)),
        !is_ws(spec_digit_char(d)),
        spec_digit_char(d) != ':',
{
}

/// A two-digit rendering of a number below 100 reads back as that number.
proof fn lemma_two_digits(n: int)
    requires
        0 <= n < 100,
    ensures
        spec_two_digits(n).len() == 2,
        is_digit(spec_two_digits(n)[0]),
        is_digit(spec_two_digits(n)[1]),
        !is_ws(spec_two_digits(n)[0]),
        !is_ws(spec_two_digits(n)[1]),
        10 * spec_digit_val(spec_two_digits(n)[0]) + spec_digit_val(spec_two_digits(n)[1]) == n,
{
    lemma_digit_char(n / 10);
    lemma_digit_char(n % 10);
}

/// Parsing a formatted duration gives back the seconds that were formatted:
/// the round trip holds for any whole-second duration under one hundred
/// hours.
pub proof fn lemma_format_parse_round_trip(secs: int)
    requires
        0 <= secs < 360000,
    ensures
        spec_parse(spec_format(secs)) == Some(secs),
{
    let t = spec_format(secs);
    let m = secs % 60;
    assert(60 * (secs / 60) + secs % 60 == secs) by (nonlinear_arith);
    assert(3600 * (secs / 3600) + (secs % 3600) == secs) by (nonlinear_arith);
    assert(60 * ((secs % 3600) / 60) + (secs % 3600) % 60 == secs % 3600) by (nonlinear_arith);
    assert((secs % 3600) % 60 == secs % 60) by (nonlinear_arith);
    if secs < 3600 {
        let hi = secs / 60;
        lemma_two_digits(hi);
        lemma_two_digits(m);
        assert(t.len() == 5);
        assert(t[0] == spec_two_digits(hi)[0] && t[1] == spec_two_digits(hi)[1]);
        assert(t[2] == ':');
        assert(t[3] == spec_two_digits(m)[0] && t[4] == spec_two_digits(m)[1]);
        lemma_leading_ws_from_bounds(t, 0);
        lemma_trailing_ws_from_bounds(t, t.len() as int);
        assert(spec_trimmed(t) =~= t);
        assert(two_digit_val(t, 0) == hi && two_digit_val(t, 3) == m);
        assert(spec_parse_core(t) == Some(60 * hi + m));
    } else {
        let h = secs / 3600;
        let mi = (secs % 3600) / 60;
        assert(1 <= h < 100);
        assert(0 <= mi < 60);
        lemma_two_digits(mi);
        lemma_two_digits(m);
        if h < 10 {
            lemma_digit_char(h);
            assert(t.len() == 7);
            assert(t[0] == spec_digit_char(h));
            assert(t[1] == ':');
            assert(t[2] == spec_two_digits(mi)[0] && t[3] == spec_two_digits(mi)[1]);
            assert(t[4] == ':');
            assert(t[5] == spec_two_digits(m)[0] && t[6] == spec_two_digits(m)[1]);
            lemma_leading_ws_from_bounds(t, 0);
            lemma_trailing_ws_from_bounds(t, t.len() as int);
            assert(spec_trimmed(t) =~= t);
            assert(spec_digit_val(t[0]) == h);
            assert(two_digit_val(t, 2) == mi && two_digit_val(t, 5) == m);
            assert(spec_parse_core(t) == Some(3600 * h + 60 * mi + m));
        } else {
            lemma_digit_char(h / 10);
            lemma_digit_char(h % 10);
            assert(10 * (h / 10) + h % 10 == h) by (nonlinear_arith);
            assert(spec_dec(h / 10) =~= seq![spec_digit_char(h / 10)]);
            assert(spec_dec(h) =~= seq![
                spec_digit_char(h / 10),
                spec_digit_char(h % 10),
            ]);
            assert(t.len() == 8);
            assert(t[0] == spec_digit_char(h / 10) && t[1] == spec_digit_char(h % 10));
            assert(t[2] == ':');
            assert(t[3] == spec_two_digits(mi)[0] && t[4] == spec_two_digits(mi)[1]);
            assert(t[5] == ':');
            assert(t[6] == spec_two_digits(m)[0] && t[7] == spec_two_digits(m)[1]);
            lemma_leading_ws_from_bounds(t, 0);
            lemma_trailing_ws_from_bounds(t, t.len() as int);
            assert(spec_trimmed(t) =~= t);
            assert(two_digit_val(t, 0) == h);
            assert(two_digit_val(t, 3) == mi && two_digit_val(t, 6) == m);
            assert(spec_parse_core(t) == Some(3600 * h + 60 * mi + m));
        }
    }
}

/// The round trip at the `TimeSpan` level: a whole-second duration under one
/// hundred hours parses back from its own rendering to the same value.
pub proof fn lemma_display_parse_round_trip(t: TimeSpan)
    requires
        t@ % 1_000_000_000 == 0,
        t@ < 360000 * 1_000_000_000,
    ensures
        spec_parse(spec_format(t@ / 1_000_000_000)) == Some(t@ / 1_000_000_000),
{
    assert(0 <= t@ / 1_000_000_000 < 360000) by (nonlinear_arith)
        requires
            0 <= t@ < 360000 * 1_000_000_000,
    ;
    lemma_format_parse_round_trip(t@ / 1_000_000_000);
}

} // verus!
