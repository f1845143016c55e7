//! Watches a set of network ports, identifies the processes bound to
//! them, and terminates selected processes on demand.
//!
//! The library holds the verified core: port-to-process discovery
//! ([`scan`]), rule-based filtering ([`smart_filter`]), the kill
//! escalation controller ([`kill`]), and the monitor loop's scheduling,
//! debouncing and validation decisions ([`monitor`]), together with the
//! data model ([`types`]), preset management ([`preset_manager`]),
//! service discovery ([`service_detector`]) and the kill history
//! ([`history`]). Platform work — invoking the enumeration tools,
//! delivering signals, checking liveness, reading files and sleeping — is
//! performed by the embedding program, which feeds the results into the
//! verified functions as plain values.

pub mod history;
pub mod kill;
pub mod monitor;
pub mod preset_manager;
pub mod scan;
pub mod service_detector;
pub mod smart_filter;
pub mod text;
pub mod types;

use vstd::prelude::*;

verus! {

/// Decimal digit characters, the building block for the numeric text that
/// status lines and preset listings display.
pub open spec fn digit_char(d: nat) -> char {
    if d == 0 {
        '0'
    } else if d == 1 {
        '1'
    } else if d == 2 {
        '2'
    } else if d == 3 {
        '3'
    } else if d == 4 {
        '4'
    } else if d == 5 {
        '5'
    } else if d == 6 {
        '6'
    } else if d == 7 {
        '7'
    } else if d == 8 {
        '8'
    } else {
        '9'
    }
}

/// The usual decimal rendering of `n`, most significant digit first.
pub open spec fn dec_digits(n: nat) -> Seq<char>
    decreases n,
{
    if n < 10 {
        seq![digit_char(n)]
    } else {
        dec_digits(n / 10).push(digit_char(n % 10))
    }
}

fn digit_str(d: u64) -> (r: &'static str)
    requires
        d < 10,
    ensures
        r@ == seq![digit_char(d as nat)],
{
    proof {
        reveal_strlit("0");
        reveal_strlit("1");
        reveal_strlit("2");
        reveal_strlit("3");
        reveal_strlit("4");
        reveal_strlit("5");
        reveal_strlit("6");
        reveal_strlit("7");
        reveal_strlit("8");
        reveal_strlit("9");
    }
    if d == 0 {
        "0"
    } else if d == 1 {
        "1"
    } else if d == 2 {
        "2"
    } else if d == 3 {
        "3"
    } else if d == 4 {
        "4"
    } else if d == 5 {
        "5"
    } else if d == 6 {
        "6"
    } else if d == 7 {
        "7"
    } else if d == 8 {
        "8"
    } else {
        "9"
    }
}

/// Appends the decimal rendering of `n` to `out`.
pub fn push_decimal(out: &mut String, n: u64)
    ensures
        final(out)@ == old(out)@ + dec_digits(n as nat),
    decreases n,
{
    if n >= 10 {
        push_decimal(out, n / 10);
    }
    out.append(digit_str(n % 10));
}

/// The decimal rendering of `n` as a fresh string.
pub fn decimal_string(n: u64) -> (r: String)
    ensures
        r@ == dec_digits(n as nat),
{
    let mut s = String::new();
    push_decimal(&mut s, n);
    s
}

} // verus!
