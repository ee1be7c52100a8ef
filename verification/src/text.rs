//! Decimal rendering of unsigned integers, and the time-stamped names of the
//! ground station's log files.

use crate::clock::{self, UnixTime};
use vstd::prelude::*;
use vstd::string::*;

verus! {

/// The character of a decimal digit.
pub open spec fn digit_char(d: nat) -> char {
    (48 + d) as char
}

/// The decimal digits of `n`, most significant first, without leading zeros.
pub open spec fn decimal(n: nat) -> Seq<char>
    decreases n,
{
    if n < 10 {
        seq![digit_char(n)]
    } else {
        decimal(n / 10) + seq![digit_char(n % 10)]
    }
}

/// The last three decimal digits of `n`, zero-padded.
pub open spec fn three_digits(n: nat) -> Seq<char> {
    seq![digit_char((n / 100) % 10), digit_char((n / 10) % 10), digit_char(n % 10)]
}

/// `<prefix>_<seconds>.<milliseconds, three digits>.<extension>`
pub open spec fn spec_file_name(prefix: Seq<char>, extension: Seq<char>, t: UnixTime) -> Seq<char> {
    prefix + seq!['_'] + decimal(t.secs as nat) + seq!['.'] + three_digits(
        (t.subsec_nanos / 1_000_000) as nat,
    ) + seq!['.'] + extension
}

/// The one-character string of a decimal digit.
pub fn digit_str(d: u64) -> (s: &'static str)
    requires
        d < 10,
    ensures
        s@ == seq![digit_char(d as nat)],
{
    proof {
        reveal_strlit("0");
        reveal_strlit("1");
        reveal_strlit("2");
        reveal_strlit("3");
        reveal_strlit("4");
        reveal_strlit("5");
        reveal_strlit("6");
        reveal_strlit("7");
        reveal_strlit("8");
        reveal_strlit("9");
    }
    match d {
        0 => "0",
        1 => "1",
        2 => "2",
        3 => "3",
        4 => "4",
        5 => "5",
        6 => "6",
        7 => "7",
        8 => "8",
        _ => "9",
    }
}

/// Appends the decimal digits of `n`.
pub fn push_decimal(out: &mut String, n: u64)
    ensures
        final(out)@ == old(out)@ + decimal(n as nat),
    decreases n,
{
    if n >= 10 {
        push_decimal(out, n / 10);
    }
    out.append(digit_str(n % 10));
    assert(final(out)@ =~= old(out)@ + decimal(n as nat));
}

/// Appends the last three decimal digits of `n`, zero-padded.
pub fn push_three_digits(out: &mut String, n: u64)
    ensures
        final(out)@ == old(out)@ + three_digits(n as nat),
{
    out.append(digit_str((n / 100) % 10));
    out.append(digit_str((n / 10) % 10));
    out.append(digit_str(n % 10));
    assert(final(out)@ =~= old(out)@ + three_digits(n as nat));
}

/// The name of a file written at `time`.
pub fn file_name_at(prefix: &str, extension: &str, time: UnixTime) -> (name: String)
    requires
        time.wf(),
    ensures
        name@ == spec_file_name(prefix@, extension@, time),
{
    let mut name = String::new();
    name.append(prefix);
    proof {
        reveal_strlit("_");
        reveal_strlit(".");
    }
    name.append("_");
    push_decimal(&mut name, time.secs);
    name.append(".");
    push_three_digits(&mut name, time.subsec_millis() as u64);
    name.append(".");
    name.append(extension);
    assert(name@ =~= spec_file_name(prefix@, extension@, time));
    name
}

/// The name of a file written now, by the system clock.
pub fn timestamped_file_name(prefix: &str, extension: &str) -> (name: String)
    ensures
        exists|t: UnixTime| t.wf() && #[trigger] spec_file_name(prefix@, extension@, t) == name@,
{
    let now = clock::unix_time_now();
    file_name_at(prefix, extension, now)
}

} // verus!
