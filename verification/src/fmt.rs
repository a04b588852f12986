//! Human-readable rendering of byte counts and durations, in exact
//! integer arithmetic (sizes show one truncated decimal).

use vstd::prelude::*;
use crate::textutil::{chars_to_string, dec_digits, digit_char, push_str_chars, push_u64_chars};

verus! {

pub const KIB: u64 = 1024;

pub const MIB: u64 = 1048576;

pub const GIB: u64 = 1073741824;

pub const TIB: u64 = 1099511627776;

/// A size scaled by `unit`, with one truncated decimal digit.
pub open spec fn scaled1(bytes: nat, unit: nat) -> Seq<char> {
    let tenths = bytes * 10 / unit;
    dec_digits(tenths / 10) + seq!['.', digit_char(tenths % 10)]
}

/// The rendering of a byte count: the largest binary unit it reaches,
/// with one decimal, or the plain count below 1 KiB.
pub open spec fn spec_format_bytes(bytes: u64) -> Seq<char> {
    if bytes >= TIB {
        scaled1(bytes as nat, TIB as nat) + " TiB"@
    } else if bytes >= GIB {
        scaled1(bytes as nat, GIB as nat) + " GiB"@
    } else if bytes >= MIB {
        scaled1(bytes as nat, MIB as nat) + " MiB"@
    } else if bytes >= KIB {
        scaled1(bytes as nat, KIB as nat) + " KiB"@
    } else {
        dec_digits(bytes as nat) + " B"@
    }
}

fn push_scaled1(out: &mut Vec<char>, bytes: u64, unit: u64)
    requires
        unit >= 10,
    ensures
        final(out)@ == old(out)@ + scaled1(bytes as nat, unit as nat),
{
    proof {
        assert((bytes as int * 10) / (unit as int) <= bytes as int) by (nonlinear_arith)
            requires
                unit >= 10,
                bytes >= 0,
        ;
    }
    let tenths: u64 = (((bytes as u128) * 10) / (unit as u128)) as u64;
    push_u64_chars(out, tenths / 10);
    out.push('.');
    let d: u64 = tenths % 10;
    out.push((48 + (d as u8)) as char);
    assert(out@ =~= old(out)@ + scaled1(bytes as nat, unit as nat));
}

/// Render a byte count with its binary unit, e.g. 1536 -> "1.5 KiB".
pub fn format_bytes(bytes: u64) -> (r: String)
    ensures
        r@ == spec_format_bytes(bytes),
{
    let mut out: Vec<char> = Vec::new();
    if bytes >= TIB {
        push_scaled1(&mut out, bytes, TIB);
        push_str_chars(&mut out, " TiB");
    } else if bytes >= GIB {
        push_scaled1(&mut out, bytes, GIB);
        push_str_chars(&mut out, " GiB");
    } else if bytes >= MIB {
        push_scaled1(&mut out, bytes, MIB);
        push_str_chars(&mut out, " MiB");
    } else if bytes >= KIB {
        push_scaled1(&mut out, bytes, KIB);
        push_str_chars(&mut out, " KiB");
    } else {
        push_u64_chars(&mut out, bytes);
        push_str_chars(&mut out, " B");
    }
    chars_to_string(out)
}

/// The rendering of an uptime: days, hours and minutes, omitting leading
/// zero units down to a bare minute count.
pub open spec fn spec_format_duration(secs: u64) -> Seq<char> {
    let days = secs as nat / 86400;
    let hours = secs as nat % 86400 / 3600;
    let mins = secs as nat % 3600 / 60;
    if days > 0 {
        dec_digits(days) + "d "@ + dec_digits(hours) + "h "@ + dec_digits(mins) + "m"@
    } else if hours > 0 {
        dec_digits(hours) + "h "@ + dec_digits(mins) + "m"@
    } else {
        dec_digits(mins) + "m"@
    }
}

/// Render a duration in whole minutes, hours and days, e.g. 90061 ->
/// "1d 1h 1m".
pub fn format_duration(secs: u64) -> (r: String)
    ensures
        r@ == spec_format_duration(secs),
{
    let days = secs / 86400;
    let hours = secs % 86400 / 3600;
    let mins = secs % 3600 / 60;
    let mut out: Vec<char> = Vec::new();
    if days > 0 {
        push_u64_chars(&mut out, days);
        push_str_chars(&mut out, "d ");
        push_u64_chars(&mut out, hours);
        push_str_chars(&mut out, "h ");
        push_u64_chars(&mut out, mins);
        push_str_chars(&mut out, "m");
    } else if hours > 0 {
        push_u64_chars(&mut out, hours);
        push_str_chars(&mut out, "h ");
        push_u64_chars(&mut out, mins);
        push_str_chars(&mut out, "m");
    } else {
        push_u64_chars(&mut out, mins);
        push_str_chars(&mut out, "m");
    }
    chars_to_string(out)
}

} // verus!
