//! What the agent learns from its environment when it starts: the port on
//! which the supervisor listens, and whether it runs under the test
//! harness.

use vstd::prelude::*;
use vstd::string::*;

verus! {

/// Name of the variable that holds the supervisor's port.
pub const PORT_VARIABLE: &'static str = "CAPSULE_PORT";

/// Name of the variable that marks a run under the test harness.
pub const TEST_VARIABLE: &'static str = "CAPSULE_TEST";

/// Why the agent cannot reach the supervisor.
#[derive(Clone, Copy, Debug, PartialEq, Eq, Structural)]
pub enum SettingsError {
    /// The environment does not name a port.
    PortMissing,
    /// What the environment names is not a port number.
    PortUnparsable,
}

/// Whether a character is a decimal digit.
pub open spec fn is_digit(c: char) -> bool {
    '0' <= c <= '9'
}

/// The value of a decimal digit.
pub open spec fn digit_value(c: char) -> nat {
    (c as u32 - '0' as u32) as nat
}

/// Whether a string is made of decimal digits alone.
pub open spec fn all_digits(s: Seq<char>) -> bool {
    forall|i: int| 0 <= i < s.len() ==> is_digit(#[trigger] s[i])
}

/// The number that a string of decimal digits denotes.
pub open spec fn decimal(s: Seq<char>) -> nat
    decreases s.len(),
{
    if s.len() == 0 {
        0
    } else {
        decimal(s.drop_last()) * 10 + digit_value(s.last())
    }
}

/// A string without the plus sign that it may begin with.
pub open spec fn unsigned(s: Seq<char>) -> Seq<char> {
    if s.len() > 0 && s[0] == '+' {
        s.drop_first()
    } else {
        s
    }
}

/// The port number that a string denotes, if it denotes one: it is made of
/// decimal digits, at least one, after at most one plus sign, and its
/// value is a port number.
pub open spec fn port_in(s: Seq<char>) -> Option<u16> {
    let digits = unsigned(s);
    if digits.len() > 0 && all_digits(digits) && decimal(digits) <= u16::MAX {
        Some(decimal(digits) as u16)
    } else {
        None
    }
}

/// A string of digits denotes no less than any of its beginnings.
proof fn lemma_decimal_grows(s: Seq<char>, k: int)
    requires
        0 <= k <= s.len(),
    ensures
        decimal(s.take(k)) <= decimal(s),
    decreases s.len(),
{
    if k < s.len() {
        lemma_decimal_grows(s.drop_last(), k);
        assert(s.drop_last().take(k) =~= s.take(k));
    } else {
        assert(s.take(k) =~= s);
    }
}

/// Reads a port number.
pub fn parse_port(s: &str) -> (r: Option<u16>)
    ensures
        r == port_in(s@),
{
    let n = s.unicode_len();
    let start: usize = if n > 0 && s.get_char(0) == '+' {
        1
    } else {
        0
    };
    let ghost digits = unsigned(s@);
    if start == n {
        return None;
    }
    let mut value: u32 = 0;
    let mut i: usize = start;
    proof {
        assert(digits.take(0) =~= Seq::<char>::empty());
    }
    while i < n
        invariant
            start <= i <= n,
            n == s@.len(),
            digits == unsigned(s@),
            digits.len() == n - start,
            forall|j: int| 0 <= j < digits.len() ==> digits[j] == s@[j + start],
            forall|j: int| 0 <= j < i - start ==> is_digit(#[trigger] digits[j]),
            value == decimal(digits.take(i - start)),
            value <= u16::MAX,
        decreases n - i,
    {
        let c = s.get_char(i);
        let code = c as u32;
        proof {
            assert(digits.take(i - start + 1).drop_last() =~= digits.take(i - start));
            assert(digits.take(i - start + 1).last() == c);
        }
        if code < 48 || code > 57 {
            assert(!is_digit(digits[i - start]));
            return None;
        }
        value = value * 10 + (code - 48);
        if value > 65535 {
            proof {
                lemma_decimal_grows(digits, i - start + 1);
            }
            return None;
        }
        i += 1;
    }
    proof {
        assert(digits.take(i - start) =~= digits);
    }
    Some(value as u16)
}

/// The supervisor's port, given the value of the port variable.
pub fn supervisor_port(value: Option<&str>) -> (r: Result<u16, SettingsError>)
    ensures
        r == match value {
            None => Err::<u16, SettingsError>(SettingsError::PortMissing),
            Some(v) => match port_in(v@) {
                Some(port) => Ok(port),
                None => Err(SettingsError::PortUnparsable),
            },
        },
{
    match value {
        None => Err(SettingsError::PortMissing),
        Some(v) => match parse_port(v) {
            Some(port) => Ok(port),
            None => Err(SettingsError::PortUnparsable),
        },
    }
}

/// Whether the agent runs under the test harness, given the value of the
/// test variable: it does where the value is `1`.
pub fn in_test(value: Option<&str>) -> (b: bool)
    ensures
        b == (value matches Some(v) && v@ == "1"@),
{
    match value {
        None => false,
        Some(v) => String::from_str(v) == String::from_str("1"),
    }
}

} // verus!
