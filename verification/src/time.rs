use vstd::prelude::*;
use vstd::string::*;

use crate::text::{decimal, owned, push_char, push_decimal};

verus! {

/// Trusted: reads the wall clock (`std::time::SystemTime::now`) as whole seconds since
/// the Unix epoch, 0 for a clock set before the epoch. Nothing is claimed of the value:
/// it depends on the time of the call.
#[verifier::external_body]
fn unix_seconds_now() -> (r: u64) {
    std::time::SystemTime::now().duration_since(std::time::UNIX_EPOCH).map_or(0, |d| d.as_secs())
}

/// Signed decimal rendering.
pub open spec fn int_text(n: int) -> Seq<char> {
    if n < 0 { "-"@ + decimal((-n) as nat) } else { decimal(n as nat) }
}

/// Decimal rendering padded with zeros to at least `width` digits (for non-negative values).
pub open spec fn padded(n: int, width: nat) -> Seq<char> {
    if 0 <= n && width == 4 && n < 10 { "000"@ + decimal(n as nat) }
    else if 0 <= n && width == 4 && n < 100 { "00"@ + decimal(n as nat) }
    else if 0 <= n && width == 4 && n < 1000 { "0"@ + decimal(n as nat) }
    else if 0 <= n && width == 2 && n < 10 { "0"@ + decimal(n as nat) }
    else { int_text(n) }
}

/// Calendar date (year, month, day) of a day count since 1970-01-01 (proleptic Gregorian).
pub open spec fn civil_from_days(days: int) -> (int, int, int) {
    let z = days + 719468;
    let era = z / 146097;
    let doe = z % 146097;
    let yoe = (doe - doe / 1460 + doe / 36524 - doe / 146096) / 365;
    let y = yoe + era * 400;
    let doy = doe - (365 * yoe + yoe / 4 - yoe / 100);
    let mp = (5 * doy + 2) / 153;
    let d = doy - (153 * mp + 2) / 5 + 1;
    let m = if mp < 10 { mp + 3 } else { mp - 9 };
    (if m <= 2 { y + 1 } else { y }, m, d)
}

/// ISO 8601 UTC rendering (`YYYY-MM-DDTHH:MM:SSZ`) of seconds since the Unix epoch.
pub open spec fn iso8601_text(secs: nat) -> Seq<char> {
    let days = (secs / 86400) as int;
    let rem = (secs % 86400) as int;
    let (y, m, d) = civil_from_days(days);
    padded(y, 4) + "-"@ + padded(m, 2) + "-"@ + padded(d, 2) + "T"@ + padded(rem / 3600, 2) + ":"@
        + padded((rem % 3600) / 60, 2) + ":"@ + padded(rem % 60, 2) + "Z"@
}

fn push_padded(s: &mut String, n: i64, width: u64)
    requires
        width == 2 || width == 4,
        n > i64::MIN,
    ensures
        final(s)@ == old(s)@ + padded(n as int, width as nat),
{
    if 0 <= n && width == 4 && n < 10 {
        s.append("000");
        push_decimal(s, n as u64);
    } else if 0 <= n && width == 4 && n < 100 {
        s.append("00");
        push_decimal(s, n as u64);
    } else if 0 <= n && width == 4 && n < 1000 {
        s.append("0");
        push_decimal(s, n as u64);
    } else if 0 <= n && width == 2 && n < 10 {
        s.append("0");
        push_decimal(s, n as u64);
    } else if n < 0 {
        s.append("-");
        push_decimal(s, (-n) as u64);
    } else {
        push_decimal(s, n as u64);
    }
}

fn civil(days: i64) -> (r: (i64, i64, i64))
    requires
        0 <= days <= 250000000000000,
    ensures
        (r.0 as int, r.1 as int, r.2 as int) == civil_from_days(days as int),
        r.0 > i64::MIN,
        r.1 > i64::MIN,
        r.2 > i64::MIN,
{
    let z: i64 = days + 719468;
    let era: i64 = z / 146097;
    let doe: i64 = z % 146097;
    assert(0 <= yoe_bound(doe as int) < 1000) by (nonlinear_arith)
        requires
            0 <= doe < 146097,
    {
        assert(doe / 1460 <= doe);
        assert(doe / 36524 <= doe);
    }
    let yoe: i64 = (doe - doe / 1460 + doe / 36524 - doe / 146096) / 365;
    assert(0 <= era <= 2000000000) by (nonlinear_arith)
        requires
            0 <= z <= 260000000000000,
            era == z / 146097,
    ;
    let y: i64 = yoe + era * 400;
    let doy: i64 = doe - (365 * yoe + yoe / 4 - yoe / 100);
    let mp: i64 = (5 * doy + 2) / 153;
    let d: i64 = doy - (153 * mp + 2) / 5 + 1;
    let m: i64 = if mp < 10 { mp + 3 } else { mp - 9 };
    let year: i64 = if m <= 2 { y + 1 } else { y };
    (year, m, d)
}

spec fn yoe_bound(doe: int) -> int {
    (doe - doe / 1460 + doe / 36524 - doe / 146096) / 365
}

/// Renders seconds since the Unix epoch as ISO 8601 UTC text.
pub fn iso8601(secs: u64) -> (r: String)
    ensures
        r@ == iso8601_text(secs as nat),
{
    let days: i64 = (secs / 86400) as i64;
    let rem: i64 = (secs % 86400) as i64;
    let (year, m, d) = civil(days);
    let mut s = String::new();
    push_padded(&mut s, year, 4);
    s.append("-");
    push_padded(&mut s, m, 2);
    s.append("-");
    push_padded(&mut s, d, 2);
    s.append("T");
    push_padded(&mut s, rem / 3600, 2);
    s.append(":");
    push_padded(&mut s, (rem % 3600) / 60, 2);
    s.append(":");
    push_padded(&mut s, rem % 60, 2);
    s.append("Z");
    s
}

/// An ISO 8601 timestamp.
#[derive(Debug, Clone, PartialEq, Eq, Hash)]
pub struct Timestamp(pub String);

impl View for Timestamp {
    type V = Seq<char>;

    open spec fn view(&self) -> Seq<char> {
        self.0@
    }
}

impl Timestamp {
    /// A timestamp from its text.
    pub fn new(text: &str) -> (r: Self)
        ensures
            r@ == text@,
    {
        Timestamp(owned(text))
    }

    /// The Unix epoch.
    pub fn epoch() -> (r: Self)
        ensures
            r@ == "1970-01-01T00:00:00Z"@,
    {
        Timestamp(owned("1970-01-01T00:00:00Z"))
    }

    /// The current wall-clock time, rendered as ISO 8601 UTC.
    pub fn now() -> (r: Self)
        ensures
            exists|secs: nat| r@ == iso8601_text(secs),
    {
        let secs = unix_seconds_now();
        Timestamp(iso8601(secs))
    }

    /// The timestamp text.
    pub fn as_str(&self) -> (r: &str)
        ensures
            r@ == self@,
    {
        self.0.as_str()
    }

    /// Copies the timestamp.
    pub fn duplicate(&self) -> (r: Self)
        ensures
            r@ == self@,
    {
        Timestamp(self.0.clone())
    }
}

} // verus!
