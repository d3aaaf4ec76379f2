//! The exit status of the helper, taken from the status that the API
//! server reports for the git command in the worker pod; and the log level
//! that the verbosity selects.
use vstd::prelude::*;
use crate::text::chars_of;
use crate::text::check_ascii_digit;
use crate::text::is_ascii_digit;

verus! {

// ---------------------------------------------------------------------------
// Decimal numbers
// ---------------------------------------------------------------------------

/// The value of an ASCII digit.
pub open spec fn digit_value(c: char) -> int {
    (c as int) - ('0' as int)
}

/// The value of a string of decimal digits, most significant first.
pub open spec fn decimal_value(d: Seq<char>) -> int
    decreases d.len(),
{
    if d.len() == 0 {
        0
    } else {
        decimal_value(d.drop_last()) * 10 + digit_value(d.last())
    }
}

/// Every character of `d` is an ASCII digit.
pub open spec fn all_digits(d: Seq<char>) -> bool {
    forall|i: int| 0 <= i < d.len() ==> is_ascii_digit(#[trigger] d[i])
}

/// A `u8` written in decimal, as `u8::from_str` reads it: an optional `+`,
/// then one or more ASCII digits (leading zeros allowed) whose value is at
/// most 255; anything else is no number.
pub open spec fn decimal_u8(s: Seq<char>) -> Option<u8> {
    let d = if s.len() > 0 && s[0] == '+' {
        s.drop_first()
    } else {
        s
    };
    if d.len() > 0 && all_digits(d) && decimal_value(d) <= 255 {
        Some(decimal_value(d) as u8)
    } else {
        None
    }
}

/// A prefix of a digit string has no larger value than the string.
proof fn lemma_decimal_prefix(d: Seq<char>, i: int)
    requires
        all_digits(d),
        0 <= i <= d.len(),
    ensures
        0 <= decimal_value(d.take(i)) <= decimal_value(d),
    decreases d.len(),
{
    if d.len() > 0 {
        let p = d.drop_last();
        assert(all_digits(p)) by {
            assert forall|k: int| 0 <= k < p.len() implies is_ascii_digit(#[trigger] p[k]) by {
                assert(p[k] == d[k]);
            }
        }
        assert(is_ascii_digit(d[d.len() - 1]));
        if i < d.len() {
            lemma_decimal_prefix(p, i);
            assert(p.take(i) =~= d.take(i));
        } else {
            lemma_decimal_prefix(p, p.len() as int);
            assert(p.take(p.len() as int) =~= p);
            assert(d.take(i) =~= d);
        }
    } else {
        assert(d.take(i) =~= d);
    }
}

/// Reads a `u8` written in decimal, as `u8::from_str` does.
pub fn parse_decimal_u8(s: &str) -> (res: Option<u8>)
    ensures
        res == decimal_u8(s@),
{
    let v = chars_of(s);
    let start: usize = if v.len() > 0 && v[0] == '+' {
        1
    } else {
        0
    };
    let ghost d = if s@.len() > 0 && s@[0] == '+' {
        s@.drop_first()
    } else {
        s@
    };
    proof {
        assert(d =~= v@.subrange(start as int, v@.len() as int));
    }
    if start == v.len() {
        return None;
    }
    let mut value: u32 = 0;
    let mut i: usize = start;
    while i < v.len()
        invariant
            v@ == s@,
            d == v@.subrange(start as int, v@.len() as int),
            d == if s@.len() > 0 && s@[0] == '+' {
                s@.drop_first()
            } else {
                s@
            },
            d.len() > 0,
            start <= i <= v.len(),
            value as int == decimal_value(d.take(i - start)),
            value <= 255,
            all_digits(d.take(i - start)),
        decreases v.len() - i,
    {
        let c = v[i];
        if !check_ascii_digit(c) {
            assert(d[i - start] == c);
            return None;
        }
        proof {
            let t = d.take(i - start + 1);
            assert(t.drop_last() =~= d.take(i - start));
            assert(t.last() == c);
            assert forall|k: int| 0 <= k < t.len() implies is_ascii_digit(#[trigger] t[k]) by {
                if k < t.len() - 1 {
                    assert(t[k] == d.take(i - start)[k]);
                }
            }
        }
        value = value * 10 + ((c as u32) - ('0' as u32));
        i += 1;
        if value > 255 {
            proof {
                if all_digits(d) {
                    lemma_decimal_prefix(d, i - start);
                }
            }
            return None;
        }
    }
    proof {
        assert(d.take(i - start) =~= d);
    }
    Some(value as u8)
}

// ---------------------------------------------------------------------------
// Exit status
// ---------------------------------------------------------------------------

/// The reason the API server gives when the command exited with a nonzero
/// code.
pub open spec fn non_zero_exit_code() -> Seq<char> {
    "NonZeroExitCode"@
}

/// The exit code of the helper, from the reason of the command's final
/// status and the message of the first cause in its details: where the
/// reason is `NonZeroExitCode`, the code that the message states, or 1
/// where it states none; else 0.
pub open spec fn worker_exit_code_spec(reason: Option<Seq<char>>, message: Option<Seq<char>>) -> u8 {
    if reason == Some(non_zero_exit_code()) {
        match message {
            Some(m) => match decimal_u8(m) {
                Some(n) => n,
                None => 1,
            },
            None => 1,
        }
    } else {
        0
    }
}

/// The exit code of the helper once the git command in the worker pod has
/// ended (see `worker_exit_code_spec`).
pub fn worker_exit_code(reason: Option<&str>, first_cause_message: Option<&str>) -> (code: u8)
    ensures
        code == worker_exit_code_spec(
            match reason {
                Some(r) => Some(r@),
                None => None,
            },
            match first_cause_message {
                Some(m) => Some(m@),
                None => None,
            },
        ),
{
    let code = match first_cause_message {
        Some(m) => match parse_decimal_u8(m) {
            Some(n) => n,
            None => 1,
        },
        None => 1,
    };
    match reason {
        Some(r) => {
            if r.to_owned() == "NonZeroExitCode".to_owned() {
                code
            } else {
                0
            }
        },
        None => 0,
    }
}

/// `n` written in decimal, most significant digit first, without leading
/// zeros.
pub open spec fn decimal_digits(n: nat) -> Seq<char>
    decreases n,
{
    if n < 10 {
        seq![((48 + n) as u32) as char]
    } else {
        decimal_digits(n / 10).push(((48 + n % 10) as u32) as char)
    }
}

proof fn lemma_decimal_digits(n: nat)
    ensures
        decimal_digits(n).len() > 0,
        all_digits(decimal_digits(n)),
        decimal_digits(n)[0] != '+',
        decimal_value(decimal_digits(n)) == n,
    decreases n,
{
    if n < 10 {
        let c = ((48 + n) as u32) as char;
        assert(c as int == 48 + n);
        assert('0' as int == 48);
        assert(decimal_digits(n).last() == c);
        assert(decimal_value(decimal_digits(n)) == decimal_value(decimal_digits(n).drop_last()) * 10
            + digit_value(c));
        assert(decimal_value(Seq::<char>::empty()) == 0);
        assert(decimal_digits(n).drop_last() =~= Seq::<char>::empty());
    } else {
        lemma_decimal_digits(n / 10);
        let d = decimal_digits(n / 10);
        let c = ((48 + n % 10) as u32) as char;
        assert(c as int == 48 + n % 10);
        let w = d.push(c);
        assert(w.drop_last() =~= d);
        assert(w.last() == c);
        assert('0' as int == 48);
        assert(digit_value(c) == n % 10);
        assert((n / 10) * 10 + n % 10 == n) by (nonlinear_arith);
        assert(decimal_digits(n) == w);
        assert(decimal_value(w) == decimal_value(d) * 10 + digit_value(c));
        assert forall|i: int| 0 <= i < w.len() implies is_ascii_digit(#[trigger] w[i]) by {
            if i < d.len() {
                assert(w[i] == d[i]);
            }
        }
        assert(w[0] == d[0]);
    }
}

/// Every `u8` written in decimal reads back as itself.
pub proof fn law_decimal_u8_round_trip(n: u8)
    ensures
        decimal_u8(decimal_digits(n as nat)) == Some(n),
{
    lemma_decimal_digits(n as nat);
}

/// Where the command exited with a nonzero code and its first cause states
/// the code `n` in decimal, the helper exits with `n`; where it exited
/// otherwise, with 0.
pub proof fn law_worker_exit_code(n: u8, reason: Seq<char>, message: Option<Seq<char>>)
    ensures
        worker_exit_code_spec(Some("NonZeroExitCode"@), Some(decimal_digits(n as nat))) == n,
        reason != "NonZeroExitCode"@ ==> worker_exit_code_spec(Some(reason), message) == 0,
        worker_exit_code_spec(None, message) == 0,
{
    law_decimal_u8_round_trip(n);
}

// ---------------------------------------------------------------------------
// Log level
// ---------------------------------------------------------------------------

/// How much the helper logs.
#[derive(Debug, Clone, Copy, PartialEq, Eq, Structural)]
pub enum LogLevel {
    Warn,
    Info,
    Debug,
    Trace,
}

/// The log level for a verbosity (the number of verbose flags): warnings
/// only, then info, debug and trace.
pub fn log_level(verbose: u8) -> (level: LogLevel)
    ensures
        level == if verbose == 0 {
            LogLevel::Warn
        } else if verbose == 1 {
            LogLevel::Info
        } else if verbose == 2 {
            LogLevel::Debug
        } else {
            LogLevel::Trace
        },
{
    match verbose {
        0 => LogLevel::Warn,
        1 => LogLevel::Info,
        2 => LogLevel::Debug,
        _ => LogLevel::Trace,
    }
}

} // verus!
