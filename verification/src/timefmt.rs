use vstd::prelude::*;

use chrono::Datelike;
use chrono::Timelike;

verus! {

/// A UTC wall-clock instant, to minute precision.
#[derive(Clone, Copy, Debug, PartialEq, Eq, Structural)]
pub struct Timestamp {
    pub year: u32,
    pub month: u32,
    pub day: u32,
    pub hour: u32,
    pub minute: u32,
}

impl Timestamp {
    /// The component ranges of a calendar instant with a four-digit year.
    pub open spec fn wf(self) -> bool {
        &&& self.year <= 9999
        &&& 1 <= self.month <= 12
        &&& 1 <= self.day <= 31
        &&& self.hour <= 23
        &&& self.minute <= 59
    }

    /// Two instants fall in the same hour.
    pub open spec fn same_hour(self, other: Timestamp) -> bool {
        &&& self.year == other.year
        &&& self.month == other.month
        &&& self.day == other.day
        &&& self.hour == other.hour
    }
}

/// Relies on chrono's `Utc::now` with the `Datelike` and `Timelike`
/// accessors: `month` is 1..=12, `day` is 1..=31, `hour` is 0..=23 and
/// `minute` is 0..=59.  The year is the proleptic Gregorian year number and,
/// like the rest, depends on the clock, so nothing more is promised.
#[verifier::external_body]
fn now_parts() -> (r: (i32, u32, u32, u32, u32))
    ensures
        1 <= r.1 <= 12,
        1 <= r.2 <= 31,
        r.3 <= 23,
        r.4 <= 59,
{
    let t = chrono::Utc::now();
    (t.year(), t.month(), t.day(), t.hour(), t.minute())
}

/// The current UTC time.  Years outside 0..=9999 (never reached by a real
/// clock) are clamped so that the result is always well formed.
pub fn now_timestamp() -> (r: Timestamp)
    ensures
        r.wf(),
{
    let (y, month, day, hour, minute) = now_parts();
    let year: u32 = if y < 0 {
        0
    } else if y > 9999 {
        9999
    } else {
        y as u32
    };
    Timestamp { year, month, day, hour, minute }
}

// ---------------------------------------------------------------------------
// Zero-padded decimal rendering.
// ---------------------------------------------------------------------------

/// The character for the decimal digit `d`.
pub open spec fn digit_char(d: int) -> char {
    ((48 + d) as u8) as char
}

/// The decimal digits of `n`, most significant first.
pub open spec fn spec_digits(n: nat) -> Seq<char>
    decreases n,
{
    if n < 10 {
        seq![digit_char(n as int)]
    } else {
        spec_digits(n / 10) + seq![digit_char((n % 10) as int)]
    }
}

/// `n` as exactly two characters, zero-padded; the rendering `%m`, `%d`,
/// `%H` and `%M` give for in-range values.
pub open spec fn spec_pad2(n: nat) -> Seq<char> {
    seq![digit_char((n / 10) as int), digit_char((n % 10) as int)]
}

/// `n` as exactly four characters, zero-padded; the rendering `%Y` gives
/// for years 0..=9999.
pub open spec fn spec_pad4(n: nat) -> Seq<char> {
    spec_pad2(n / 100) + spec_pad2(n % 100)
}

/// Appends the two-character rendering of `n`.
pub fn push_pad2(out: &mut Vec<char>, n: u32)
    requires
        n <= 99,
    ensures
        final(out)@ == old(out)@ + spec_pad2(n as nat),
{
    out.push(((48 + n / 10) as u8) as char);
    out.push(((48 + n % 10) as u8) as char);
    proof {
        assert(out@ =~= old(out)@ + spec_pad2(n as nat));
    }
}

/// Appends the four-character rendering of `n`.
pub fn push_pad4(out: &mut Vec<char>, n: u32)
    requires
        n <= 9999,
    ensures
        final(out)@ == old(out)@ + spec_pad4(n as nat),
{
    push_pad2(out, n / 100);
    push_pad2(out, n % 100);
    proof {
        assert(out@ =~= old(out)@ + spec_pad4(n as nat));
    }
}

/// Appends the plain decimal digits of `n`, with no padding.
pub fn push_digits(out: &mut Vec<char>, n: u8)
    ensures
        final(out)@ == old(out)@ + spec_digits(n as nat),
{
    if n < 10 {
        out.push(((48 + n) as u8) as char);
        proof {
            assert(out@ =~= old(out)@ + spec_digits(n as nat));
        }
    } else if n < 100 {
        out.push(((48 + n / 10) as u8) as char);
        out.push(((48 + n % 10) as u8) as char);
        proof {
            assert(spec_digits((n / 10) as nat) =~= seq![digit_char((n / 10) as int)]);
            assert(out@ =~= old(out)@ + spec_digits(n as nat));
        }
    } else {
        out.push(((48 + n / 100) as u8) as char);
        out.push(((48 + (n / 10) % 10) as u8) as char);
        out.push(((48 + n % 10) as u8) as char);
        proof {
            assert(n / 10 / 10 == n / 100) by (nonlinear_arith);
            assert(spec_digits((n / 100) as nat) =~= seq![digit_char((n / 100) as int)]);
            assert(spec_digits((n / 10) as nat) =~= seq![
                digit_char((n / 100) as int),
                digit_char(((n / 10) % 10) as int),
            ]);
            assert(out@ =~= old(out)@ + spec_digits(n as nat));
        }
    }
}

// ---------------------------------------------------------------------------
// Timestamp renderings.
// ---------------------------------------------------------------------------

/// `YYYY_MM_DD_HH_MM`: the minute-precision timestamp of raw filenames.
pub open spec fn spec_ts_minute(t: Timestamp) -> Seq<char> {
    spec_ts_hour(t) + "_"@ + spec_pad2(t.minute as nat)
}

/// `YYYY_MM_DD_HH`: the hour-precision timestamp of pretty filenames.
pub open spec fn spec_ts_hour(t: Timestamp) -> Seq<char> {
    spec_pad4(t.year as nat) + "_"@ + spec_pad2(t.month as nat) + "_"@ + spec_pad2(t.day as nat)
        + "_"@ + spec_pad2(t.hour as nat)
}

/// Appends `YYYY_MM_DD_HH` for `t`.
pub fn push_ts_hour(out: &mut Vec<char>, t: &Timestamp)
    requires
        t.wf(),
    ensures
        final(out)@ == old(out)@ + spec_ts_hour(*t),
{
    push_pad4(out, t.year);
    out.push('_');
    push_pad2(out, t.month);
    out.push('_');
    push_pad2(out, t.day);
    out.push('_');
    push_pad2(out, t.hour);
    proof {
        reveal_strlit("_");
        assert(out@ =~= old(out)@ + spec_ts_hour(*t));
    }
}

/// Appends `YYYY_MM_DD_HH_MM` for `t`.
pub fn push_ts_minute(out: &mut Vec<char>, t: &Timestamp)
    requires
        t.wf(),
    ensures
        final(out)@ == old(out)@ + spec_ts_minute(*t),
{
    push_ts_hour(out, t);
    out.push('_');
    push_pad2(out, t.minute);
    proof {
        reveal_strlit("_");
        assert(out@ =~= old(out)@ + spec_ts_minute(*t));
    }
}

// ---------------------------------------------------------------------------
// Injectivity: timestamps collide exactly when their components collide.
// ---------------------------------------------------------------------------

/// Two-digit renderings of numbers up to 99 collide only on equal numbers.
proof fn lemma_pad2_injective(a: nat, b: nat)
    requires
        a <= 99,
        b <= 99,
        spec_pad2(a) == spec_pad2(b),
    ensures
        a == b,
{
    assert(spec_pad2(a)[0] == spec_pad2(b)[0]);
    assert(spec_pad2(a)[1] == spec_pad2(b)[1]);
    assert((((48 + a / 10) as u8) as char) as u32 == 48 + a / 10);
    assert((((48 + b / 10) as u8) as char) as u32 == 48 + b / 10);
    assert((((48 + a % 10) as u8) as char) as u32 == 48 + a % 10);
    assert((((48 + b % 10) as u8) as char) as u32 == 48 + b % 10);
}

/// Four-digit renderings of numbers up to 9999 collide only on equal numbers.
proof fn lemma_pad4_injective(a: nat, b: nat)
    requires
        a <= 9999,
        b <= 9999,
        spec_pad4(a) == spec_pad4(b),
    ensures
        a == b,
{
    assert(spec_pad2(a / 100) =~= spec_pad4(a).subrange(0, 2));
    assert(spec_pad2(b / 100) =~= spec_pad4(b).subrange(0, 2));
    assert(spec_pad2(a % 100) =~= spec_pad4(a).subrange(2, 4));
    assert(spec_pad2(b % 100) =~= spec_pad4(b).subrange(2, 4));
    lemma_pad2_injective(a / 100, b / 100);
    lemma_pad2_injective(a % 100, b % 100);
}

/// The hour-precision rendering separates timestamps of distinct hours.
pub proof fn lemma_ts_hour_injective(t1: Timestamp, t2: Timestamp)
    requires
        t1.wf(),
        t2.wf(),
    ensures
        spec_ts_hour(t1) == spec_ts_hour(t2) <==> t1.same_hour(t2),
{
    reveal_strlit("_");
    if spec_ts_hour(t1) == spec_ts_hour(t2) {
        let s1 = spec_ts_hour(t1);
        let s2 = spec_ts_hour(t2);
        assert(spec_pad4(t1.year as nat) =~= s1.subrange(0, 4));
        assert(spec_pad4(t2.year as nat) =~= s2.subrange(0, 4));
        assert(spec_pad2(t1.month as nat) =~= s1.subrange(5, 7));
        assert(spec_pad2(t2.month as nat) =~= s2.subrange(5, 7));
        assert(spec_pad2(t1.day as nat) =~= s1.subrange(8, 10));
        assert(spec_pad2(t2.day as nat) =~= s2.subrange(8, 10));
        assert(spec_pad2(t1.hour as nat) =~= s1.subrange(11, 13));
        assert(spec_pad2(t2.hour as nat) =~= s2.subrange(11, 13));
        lemma_pad4_injective(t1.year as nat, t2.year as nat);
        lemma_pad2_injective(t1.month as nat, t2.month as nat);
        lemma_pad2_injective(t1.day as nat, t2.day as nat);
        lemma_pad2_injective(t1.hour as nat, t2.hour as nat);
    }
}

/// The minute-precision rendering separates distinct timestamps.
pub proof fn lemma_ts_minute_injective(t1: Timestamp, t2: Timestamp)
    requires
        t1.wf(),
        t2.wf(),
    ensures
        spec_ts_minute(t1) == spec_ts_minute(t2) <==> t1 == t2,
{
    reveal_strlit("_");
    if spec_ts_minute(t1) == spec_ts_minute(t2) {
        let s1 = spec_ts_minute(t1);
        let s2 = spec_ts_minute(t2);
        assert(spec_ts_hour(t1) =~= s1.subrange(0, 13));
        assert(spec_ts_hour(t2) =~= s2.subrange(0, 13));
        assert(spec_pad2(t1.minute as nat) =~= s1.subrange(14, 16));
        assert(spec_pad2(t2.minute as nat) =~= s2.subrange(14, 16));
        lemma_ts_hour_injective(t1, t2);
        lemma_pad2_injective(t1.minute as nat, t2.minute as nat);
    }
}

} // verus!
