//! The `Date:` header value: a Unix time rendered in the RFC 5322 form
//! `Wed, 12 Oct 2022 15:48:57 +0000`, always in UTC. The civil date comes
//! from the era-based day-count conversion over the proleptic Gregorian
//! calendar; each guarded subtraction below is part of the definition, so
//! that the functions are total.

use vstd::prelude::*;

use crate::numfmt::{pad2, pad4, push_pad2, push_pad4};

verus! {

/// Year, month and day of the civil date that lies `days` days after
/// 1970-01-01.
pub open spec fn civil_of_days(days: int) -> (int, int, int) {
    let z = days + 719468;
    let era = z / 146097;
    let doe = z % 146097;
    let n1 = doe - doe / 1460 + doe / 36524;
    let n2 = if n1 >= doe / 146096 {
        n1 - doe / 146096
    } else {
        0
    };
    let yoe = n2 / 365;
    let t = 365 * yoe + yoe / 4 - yoe / 100;
    let doy = if doe >= t {
        doe - t
    } else {
        0
    };
    let mp = (5 * doy + 2) / 153;
    let sub = (153 * mp + 2) / 5;
    let d = if doy >= sub {
        doy - sub + 1
    } else {
        1
    };
    let m = if mp < 10 {
        mp + 3
    } else {
        mp - 9
    };
    let y = yoe + era * 400;
    (
        if m <= 2 {
            y + 1
        } else {
            y
        },
        m,
        d,
    )
}

/// Day of the week of that date, with Sunday as zero; 1970-01-01 was a
/// Thursday.
pub open spec fn weekday_of_days(days: int) -> int {
    (days + 4) % 7
}

/// The three-letter English name of a weekday; values outside the week give
/// the first name.
pub open spec fn weekday_name(w: int) -> Seq<u8> {
    if w == 1 {
        seq![77u8, 111u8, 110u8]
    } else if w == 2 {
        seq![84u8, 117u8, 101u8]
    } else if w == 3 {
        seq![87u8, 101u8, 100u8]
    } else if w == 4 {
        seq![84u8, 104u8, 117u8]
    } else if w == 5 {
        seq![70u8, 114u8, 105u8]
    } else if w == 6 {
        seq![83u8, 97u8, 116u8]
    } else {
        seq![83u8, 117u8, 110u8]
    }
}

/// The three-letter English name of a month; values outside one to twelve
/// give the first name.
pub open spec fn month_name(m: int) -> Seq<u8> {
    if m == 2 {
        seq![70u8, 101u8, 98u8]
    } else if m == 3 {
        seq![77u8, 97u8, 114u8]
    } else if m == 4 {
        seq![65u8, 112u8, 114u8]
    } else if m == 5 {
        seq![77u8, 97u8, 121u8]
    } else if m == 6 {
        seq![74u8, 117u8, 110u8]
    } else if m == 7 {
        seq![74u8, 117u8, 108u8]
    } else if m == 8 {
        seq![65u8, 117u8, 103u8]
    } else if m == 9 {
        seq![83u8, 101u8, 112u8]
    } else if m == 10 {
        seq![79u8, 99u8, 116u8]
    } else if m == 11 {
        seq![78u8, 111u8, 118u8]
    } else if m == 12 {
        seq![68u8, 101u8, 99u8]
    } else {
        seq![74u8, 97u8, 110u8]
    }
}

/// The full RFC 5322 rendering of a Unix time: weekday, day, month, year,
/// time of day, and the fixed `+0000` zone.
pub open spec fn date_spec(secs: u64) -> Seq<u8> {
    let days = secs as int / 86400;
    let sod = secs as int % 86400;
    let ymd = civil_of_days(days);
    weekday_name(weekday_of_days(days)) + seq![44u8, 32u8] + pad2(ymd.2) + seq![32u8] + month_name(
        ymd.1,
    ) + seq![32u8] + pad4(ymd.0) + seq![32u8] + pad2(sod / 3600) + seq![58u8] + pad2(
        (sod / 60) % 60,
    ) + seq![58u8] + pad2(sod % 60) + seq![32u8, 43u8, 48u8, 48u8, 48u8, 48u8]
}

fn push_weekday_name(out: &mut Vec<u8>, w: u64)
    ensures
        final(out)@ == old(out)@ + weekday_name(w as int),
{
    if w == 1 {
        out.push(77);
        out.push(111);
        out.push(110);
    } else if w == 2 {
        out.push(84);
        out.push(117);
        out.push(101);
    } else if w == 3 {
        out.push(87);
        out.push(101);
        out.push(100);
    } else if w == 4 {
        out.push(84);
        out.push(104);
        out.push(117);
    } else if w == 5 {
        out.push(70);
        out.push(114);
        out.push(105);
    } else if w == 6 {
        out.push(83);
        out.push(97);
        out.push(116);
    } else {
        out.push(83);
        out.push(117);
        out.push(110);
    }
    proof {
        assert(out@ =~= old(out)@ + weekday_name(w as int));
    }
}

fn push_month_name(out: &mut Vec<u8>, m: u64)
    ensures
        final(out)@ == old(out)@ + month_name(m as int),
{
    if m == 2 {
        out.push(70);
        out.push(101);
        out.push(98);
    } else if m == 3 {
        out.push(77);
        out.push(97);
        out.push(114);
    } else if m == 4 {
        out.push(65);
        out.push(112);
        out.push(114);
    } else if m == 5 {
        out.push(77);
        out.push(97);
        out.push(121);
    } else if m == 6 {
        out.push(74);
        out.push(117);
        out.push(110);
    } else if m == 7 {
        out.push(74);
        out.push(117);
        out.push(108);
    } else if m == 8 {
        out.push(65);
        out.push(117);
        out.push(103);
    } else if m == 9 {
        out.push(83);
        out.push(101);
        out.push(112);
    } else if m == 10 {
        out.push(79);
        out.push(99);
        out.push(116);
    } else if m == 11 {
        out.push(78);
        out.push(111);
        out.push(118);
    } else if m == 12 {
        out.push(68);
        out.push(101);
        out.push(99);
    } else {
        out.push(74);
        out.push(97);
        out.push(110);
    }
    proof {
        assert(out@ =~= old(out)@ + month_name(m as int));
    }
}

/// Appends the RFC 5322 rendering of `secs` to `out`.
#[verifier::rlimit(100)]
pub fn push_date(out: &mut Vec<u8>, secs: u64)
    ensures
        final(out)@ == old(out)@ + date_spec(secs),
{
    let days: u64 = secs / 86400;
    let sod: u64 = secs % 86400;
    proof {
        assert(86400 * days <= secs);
        assert(days <= secs);
    }
    let z: u64 = days + 719468;
    let era: u64 = z / 146097;
    let doe: u64 = z % 146097;
    proof {
        assert(146097 * era <= z);
        assert(era <= 126254927607115);
    }
    let n1: u64 = doe - doe / 1460 + doe / 36524;
    let n2: u64 = if n1 >= doe / 146096 {
        n1 - doe / 146096
    } else {
        0
    };
    let yoe: u64 = n2 / 365;
    proof {
        assert(365 * yoe <= n2);
    }
    let t: u64 = 365 * yoe + yoe / 4 - yoe / 100;
    let doy: u64 = if doe >= t {
        doe - t
    } else {
        0
    };
    let mp: u64 = (5 * doy + 2) / 153;
    proof {
        assert(153 * mp <= 5 * doy + 2);
    }
    let sub: u64 = (153 * mp + 2) / 5;
    let d: u64 = if doy >= sub {
        doy - sub + 1
    } else {
        1
    };
    let m: u64 = if mp < 10 {
        mp + 3
    } else {
        mp - 9
    };
    let y: u64 = yoe + era * 400;
    let year: u64 = if m <= 2 {
        y + 1
    } else {
        y
    };
    let wd: u64 = (days + 4) % 7;
    let ghost ymd = civil_of_days(days as int);
    proof {
        assert(ymd.0 == year && ymd.1 == m && ymd.2 == d);
    }
    push_weekday_name(out, wd);
    out.push(44);
    out.push(32);
    push_pad2(out, d);
    out.push(32);
    push_month_name(out, m);
    out.push(32);
    push_pad4(out, year);
    out.push(32);
    push_pad2(out, sod / 3600);
    out.push(58);
    push_pad2(out, (sod / 60) % 60);
    out.push(58);
    push_pad2(out, sod % 60);
    out.push(32);
    out.push(43);
    out.push(48);
    out.push(48);
    out.push(48);
    out.push(48);
    proof {
        assert(out@ =~= old(out)@ + date_spec(secs));
    }
}

} // verus!
