//! Text for the status display.

use crate::text::{decimal, decimal_string};
use vstd::prelude::*;

verus! {

/// `n` in decimal, at least two digits wide.
pub open spec fn two_digits(n: nat) -> Seq<char> {
    if n < 10 {
        seq!['0'] + decimal(n)
    } else {
        decimal(n)
    }
}

fn two_digit_string(n: u64) -> (r: String)
    ensures
        r@ == two_digits(n as nat),
{
    let mut r = String::new();
    if n < 10 {
        r.push('0');
    }
    let d = decimal_string(n as u128);
    r.append(d.as_str());
    r
}

/// `secs` seconds as `HH:MM:SS`; the hours are not wrapped.
pub fn format_duration(secs: u64) -> (r: String)
    ensures
        r@ == two_digits((secs / 3600) as nat) + seq![':'] + two_digits(((secs % 3600) / 60) as nat)
            + seq![':'] + two_digits((secs % 60) as nat),
{
    let mut r = two_digit_string(secs / 3600);
    r.push(':');
    let m = two_digit_string((secs % 3600) / 60);
    r.append(m.as_str());
    r.push(':');
    let s = two_digit_string(secs % 60);
    r.append(s.as_str());
    r
}

} // verus!
