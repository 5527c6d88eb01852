//! Plain-value models of the temporal column types, and their canonical
//! textual renderings: dates as `YYYY-MM-DD`, clock times as `HH:MM:SS` with
//! a fractional part in groups of three digits, timestamps as the two joined
//! by a space (naive) or by `T` with a `+00:00` offset (UTC).

use crate::textfmt::{spec_dec_fixed, spec_dec_nat, u64_to_dec, u64_to_dec_fixed, push_char};
use vstd::prelude::*;
use vstd::string::StringExecFns;

verus! {

/// A calendar date in the proleptic Gregorian calendar, held as plain
/// numbers. The year range matches what the native driver can deliver.
#[derive(Clone, Copy, Debug, PartialEq, Eq, Structural, Hash)]
pub struct PgDate {
    pub year: i32,
    pub month: u8,
    pub day: u8,
}

impl PgDate {
    pub open spec fn wf(self) -> bool {
        &&& -262143 <= self.year <= 262143
        &&& 1 <= self.month <= 12
        &&& 1 <= self.day <= 31
    }
}

/// A clock time, held as plain numbers; `nanos` is the sub-second part.
#[derive(Clone, Copy, Debug, PartialEq, Eq, Structural, Hash)]
pub struct PgTime {
    pub hour: u8,
    pub minute: u8,
    pub second: u8,
    pub nanos: u32,
}

impl PgTime {
    pub open spec fn wf(self) -> bool {
        &&& self.hour < 24
        &&& self.minute < 60
        &&& self.second < 60
        &&& self.nanos < 1000000000
    }
}

/// A date paired with a clock time; used both for naive timestamps and,
/// normalized to UTC, for zone-aware ones.
#[derive(Clone, Copy, Debug, PartialEq, Eq, Structural, Hash)]
pub struct PgTimestamp {
    pub date: PgDate,
    pub time: PgTime,
}

impl PgTimestamp {
    pub open spec fn wf(self) -> bool {
        self.date.wf() && self.time.wf()
    }
}

/// Years 0..=9999 take four zero-padded digits; later years a `+` sign and
/// plain digits; earlier years a `-` sign and at least four digits.
pub open spec fn spec_year_text(y: int) -> Seq<char> {
    if 0 <= y <= 9999 {
        spec_dec_fixed(y as nat, 4)
    } else if y > 9999 {
        seq!['+'] + spec_dec_nat(y as nat)
    } else if -y <= 9999 {
        seq!['-'] + spec_dec_fixed((-y) as nat, 4)
    } else {
        seq!['-'] + spec_dec_nat((-y) as nat)
    }
}

pub open spec fn spec_date_text(d: PgDate) -> Seq<char> {
    spec_year_text(d.year as int) + seq!['-'] + spec_dec_fixed(d.month as nat, 2) + seq!['-']
        + spec_dec_fixed(d.day as nat, 2)
}

/// The fractional part after the seconds: absent for zero, else a dot and
/// three, six or nine digits, whichever is the shortest exact rendering.
pub open spec fn spec_frac_text(nanos: nat) -> Seq<char> {
    if nanos == 0 {
        Seq::empty()
    } else if nanos % 1000000 == 0 {
        seq!['.'] + spec_dec_fixed(nanos / 1000000, 3)
    } else if nanos % 1000 == 0 {
        seq!['.'] + spec_dec_fixed(nanos / 1000, 6)
    } else {
        seq!['.'] + spec_dec_fixed(nanos, 9)
    }
}

pub open spec fn spec_time_text(t: PgTime) -> Seq<char> {
    spec_dec_fixed(t.hour as nat, 2) + seq![':'] + spec_dec_fixed(t.minute as nat, 2) + seq![':']
        + spec_dec_fixed(t.second as nat, 2) + spec_frac_text(t.nanos as nat)
}

pub open spec fn spec_timestamp_text(ts: PgTimestamp) -> Seq<char> {
    spec_date_text(ts.date) + seq![' '] + spec_time_text(ts.time)
}

pub open spec fn spec_timestamptz_text(ts: PgTimestamp) -> Seq<char> {
    spec_date_text(ts.date) + seq!['T'] + spec_time_text(ts.time) + seq!['+', '0', '0', ':', '0', '0']
}

fn append_year(out: &mut String, y: i32)
    requires
        -262143 <= y <= 262143,
    ensures
        final(out)@ == old(out)@ + spec_year_text(y as int),
{
    let ghost orig: Seq<char> = out@;
    if 0 <= y && y <= 9999 {
        let part = u64_to_dec_fixed(y as u64, 4);
        out.append(part.as_str());
    } else if y > 9999 {
        push_char(out, '+');
        let part = u64_to_dec(y as u64);
        out.append(part.as_str());
        proof {
            assert(out@ =~= orig + spec_year_text(y as int));
        }
    } else {
        let wide: i64 = y as i64;
        let mag: u64 = (-wide) as u64;
        proof {
            assert(mag as int == -(y as int));
        }
        push_char(out, '-');
        if mag <= 9999 {
            let part = u64_to_dec_fixed(mag, 4);
            out.append(part.as_str());
        } else {
            let part = u64_to_dec(mag);
            out.append(part.as_str());
        }
        proof {
            assert(out@ =~= orig + spec_year_text(y as int));
        }
    }
}

pub fn append_date_text(out: &mut String, d: &PgDate)
    requires
        d.wf(),
    ensures
        final(out)@ == old(out)@ + spec_date_text(*d),
{
    let ghost orig: Seq<char> = out@;
    append_year(out, d.year);
    push_char(out, '-');
    let month = u64_to_dec_fixed(d.month as u64, 2);
    out.append(month.as_str());
    push_char(out, '-');
    let day = u64_to_dec_fixed(d.day as u64, 2);
    out.append(day.as_str());
    proof {
        assert(out@ =~= orig + spec_date_text(*d));
    }
}

pub fn append_time_text(out: &mut String, t: &PgTime)
    requires
        t.wf(),
    ensures
        final(out)@ == old(out)@ + spec_time_text(*t),
{
    let ghost orig: Seq<char> = out@;
    let hour = u64_to_dec_fixed(t.hour as u64, 2);
    out.append(hour.as_str());
    push_char(out, ':');
    let minute = u64_to_dec_fixed(t.minute as u64, 2);
    out.append(minute.as_str());
    push_char(out, ':');
    let second = u64_to_dec_fixed(t.second as u64, 2);
    out.append(second.as_str());
    let n: u32 = t.nanos;
    if n != 0 {
        push_char(out, '.');
        if n % 1000000 == 0 {
            let part = u64_to_dec_fixed((n / 1000000) as u64, 3);
            out.append(part.as_str());
        } else if n % 1000 == 0 {
            let part = u64_to_dec_fixed((n / 1000) as u64, 6);
            out.append(part.as_str());
        } else {
            let part = u64_to_dec_fixed(n as u64, 9);
            out.append(part.as_str());
        }
    }
    proof {
        assert(out@ =~= orig + spec_time_text(*t));
    }
}

pub fn append_timestamp_text(out: &mut String, ts: &PgTimestamp)
    requires
        ts.wf(),
    ensures
        final(out)@ == old(out)@ + spec_timestamp_text(*ts),
{
    let ghost orig: Seq<char> = out@;
    append_date_text(out, &ts.date);
    push_char(out, ' ');
    append_time_text(out, &ts.time);
    proof {
        assert(out@ =~= orig + spec_timestamp_text(*ts));
    }
}

pub fn append_timestamptz_text(out: &mut String, ts: &PgTimestamp)
    requires
        ts.wf(),
    ensures
        final(out)@ == old(out)@ + spec_timestamptz_text(*ts),
{
    let ghost orig: Seq<char> = out@;
    append_date_text(out, &ts.date);
    push_char(out, 'T');
    append_time_text(out, &ts.time);
    push_char(out, '+');
    push_char(out, '0');
    push_char(out, '0');
    push_char(out, ':');
    push_char(out, '0');
    push_char(out, '0');
    proof {
        assert(out@ =~= orig + spec_timestamptz_text(*ts));
    }
}

} // verus!
