//! Text rendering for durations: decimal digits, two-digit padding, and the
//! `hh:mm:ss` countdown format.

use vstd::prelude::*;
use crate::config::ClockTime;

verus! {

/// The decimal digit character for `d` (meaningful for 0 <= d <= 9).
pub open spec fn digit_char(d: int) -> char {
    if d == 0 {
        '0'
    } else if d == 1 {
        '1'
    } else if d == 2 {
        '2'
    } else if d == 3 {
        '3'
    } else if d == 4 {
        '4'
    } else if d == 5 {
        '5'
    } else if d == 6 {
        '6'
    } else if d == 7 {
        '7'
    } else if d == 8 {
        '8'
    } else {
        '9'
    }
}

/// The decimal rendering of a nonnegative number, most significant digit
/// first, with no leading zeros.
pub open spec fn dec_digits(n: nat) -> Seq<char>
    decreases n,
{
    if n < 10 {
        seq![digit_char(n as int)]
    } else {
        dec_digits(n / 10).push(digit_char((n % 10) as int))
    }
}

/// The decimal rendering padded with a leading zero to width two.
pub open spec fn pad2(n: nat) -> Seq<char> {
    if n < 10 {
        seq!['0', digit_char(n as int)]
    } else {
        dec_digits(n)
    }
}

/// `hh:mm:ss` when at least a full hour remains, else `mm:ss`; every
/// component zero-padded to two digits.
pub open spec fn duration_text(total_secs: nat) -> Seq<char> {
    let h = total_secs / 3600;
    let m = (total_secs % 3600) / 60;
    let s = total_secs % 60;
    if h > 0 {
        pad2(h) + seq![':'] + pad2(m) + seq![':'] + pad2(s)
    } else {
        pad2(m) + seq![':'] + pad2(s)
    }
}

/// The countdown text for an optional upcoming transition: the formatted
/// distance when it lies in the future, else a dash placeholder.
pub open spec fn until_text(next_transition: Option<u32>, now: ClockTime) -> Seq<char> {
    match next_transition {
        Some(t) => if t > now.spec_seconds() {
            duration_text((t - now.spec_seconds()) as nat)
        } else {
            seq!['—']
        },
        None => seq!['—'],
    }
}

fn digit_str(d: u64) -> (s: &'static str)
    requires
        d < 10,
    ensures
        s@ == seq![digit_char(d as int)],
{
    proof {
        reveal_strlit("0");
        reveal_strlit("1");
        reveal_strlit("2");
        reveal_strlit("3");
        reveal_strlit("4");
        reveal_strlit("5");
        reveal_strlit("6");
        reveal_strlit("7");
        reveal_strlit("8");
        reveal_strlit("9");
    }
    let s: &'static str = match d {
        0 => "0",
        1 => "1",
        2 => "2",
        3 => "3",
        4 => "4",
        5 => "5",
        6 => "6",
        7 => "7",
        8 => "8",
        _ => "9",
    };
    proof {
        assert(s@ =~= seq![digit_char(d as int)]);
    }
    s
}

/// Renders a number in decimal, most significant digit first.
pub fn decimal_string(n: u64) -> (s: String)
    ensures
        s@ == dec_digits(n as nat),
    decreases n,
{
    if n < 10 {
        String::from_str(digit_str(n))
    } else {
        proof {
            assert(n / 10 < n) by (nonlinear_arith)
                requires n >= 10;
        }
        let mut s = decimal_string(n / 10);
        s.append(digit_str(n % 10));
        proof {
            assert(dec_digits((n / 10) as nat) + seq![digit_char((n % 10) as int)]
                =~= dec_digits((n / 10) as nat).push(digit_char((n % 10) as int)));
        }
        s
    }
}

/// Renders a number in decimal, zero-padded to width two.
pub fn padded2_string(n: u64) -> (s: String)
    ensures
        s@ == pad2(n as nat),
{
    if n < 10 {
        proof {
            reveal_strlit("0");
        }
        let mut s = String::from_str("0");
        s.append(digit_str(n));
        proof {
            assert("0"@ + seq![digit_char(n as int)] =~= seq!['0', digit_char(n as int)]);
        }
        s
    } else {
        decimal_string(n)
    }
}

/// Formats a number of seconds as `hh:mm:ss`, or `mm:ss` when less than an
/// hour remains.
pub fn format_duration_hhmmss(total_secs: u64) -> (r: String)
    ensures
        r@ == duration_text(total_secs as nat),
{
    let h = total_secs / 3600;
    let m = (total_secs % 3600) / 60;
    let s = total_secs % 60;
    proof {
        reveal_strlit(":");
    }
    let mut out: String;
    if h > 0 {
        out = padded2_string(h);
        out.append(":");
        let mm = padded2_string(m);
        out.append(mm.as_str());
        out.append(":");
        let ss = padded2_string(s);
        out.append(ss.as_str());
        proof {
            assert(out@ =~= duration_text(total_secs as nat));
        }
    } else {
        out = padded2_string(m);
        out.append(":");
        let ss = padded2_string(s);
        out.append(ss.as_str());
        proof {
            assert(out@ =~= duration_text(total_secs as nat));
        }
    }
    out
}

/// Formats the time until an upcoming transition, with a dash placeholder
/// when none lies ahead today.
pub fn format_time_until_transition(next_transition: Option<u32>, now: ClockTime) -> (r: String)
    ensures
        r@ == until_text(next_transition, now),
{
    let now_secs = now.seconds_of_day();
    match next_transition {
        Some(t) => {
            if t > now_secs {
                format_duration_hhmmss((t - now_secs) as u64)
            } else {
                proof {
                    reveal_strlit("—");
                    assert("—"@ =~= seq!['—']);
                }
                String::from_str("—")
            }
        },
        None => {
            proof {
                reveal_strlit("—");
                assert("—"@ =~= seq!['—']);
            }
            String::from_str("—")
        },
    }
}

} // verus!
