//! The controller's settings, from what its environment says.
//!
//! Reading the environment is the caller's part. This module knows what a
//! missing value stands for and what an interval may look like.

use crate::context::{Context, ContextView};
use vstd::prelude::*;
use vstd::utf8::encode_utf8;

verus! {

/// The name under which the controller writes.
pub const CONTROLLER_NAME: &'static str = "authelia.huizinga.dev";

/// The variable that sets the namespace.
pub const NAMESPACE_VARIABLE: &'static str = "AUTHELIA_NAMESPACE";

/// The namespace, where none is set.
pub const DEFAULT_NAMESPACE: &'static str = "authelia";

/// The variable that sets the deployment.
pub const DEPLOYMENT_VARIABLE: &'static str = "AUTHELIA_DEPLOYMENT";

/// The deployment, where none is set.
pub const DEFAULT_DEPLOYMENT: &'static str = "authelia";

/// The variable that sets the secret.
pub const SECRET_VARIABLE: &'static str = "AUTHELIA_SECRET";

/// The secret, where none is set.
pub const DEFAULT_SECRET: &'static str = "authelia-acl";

/// The variable that sets the seconds between two passes.
pub const INTERVAL_VARIABLE: &'static str = "INTERVAL";

/// The seconds between two passes, where none are set.
pub const DEFAULT_INTERVAL: u64 = 15;

/// The byte is one of the digits `0` to `9`.
pub open spec fn is_digit(byte: u8) -> bool {
    48 <= byte <= 57
}

/// The bytes are digits, all of them.
pub open spec fn all_digits(bytes: Seq<u8>) -> bool {
    forall|i: int| 0 <= i < bytes.len() ==> is_digit(#[trigger] bytes[i])
}

/// The number that the digits write in decimal.
pub open spec fn digits_value(digits: Seq<u8>) -> nat
    decreases digits.len(),
{
    if digits.len() == 0 {
        0
    } else {
        (digits_value(digits.drop_last()) * 10 + (digits.last() - 48)) as nat
    }
}

/// The bytes without the plus sign that may lead them.
pub open spec fn without_sign(bytes: Seq<u8>) -> Seq<u8> {
    if bytes.len() > 0 && bytes[0] == 43 {
        bytes.drop_first()
    } else {
        bytes
    }
}

/// The number that the bytes write: at least one digit and nothing else
/// but a plus sign before the first. `None` for all other bytes.
pub open spec fn written_number(bytes: Seq<u8>) -> Option<nat> {
    let digits = without_sign(bytes);
    if digits.len() > 0 && all_digits(digits) {
        Some(digits_value(digits))
    } else {
        None
    }
}

/// Why a text is no interval.
#[derive(Clone, Copy, Debug, PartialEq, Eq, Structural)]
pub enum IntervalError {
    /// The text is not a number: it is empty, or something in it is no digit.
    Malformed,
    /// The number is too large for 64 bits.
    TooLarge,
    /// The number is zero.
    Zero,
}

/// The interval that a text gives, in seconds, or why it gives none.
pub open spec fn interval_of(text: Seq<char>) -> Result<u64, IntervalError> {
    match written_number(encode_utf8(text)) {
        None => Err(IntervalError::Malformed),
        Some(seconds) => if seconds > u64::MAX {
            Err(IntervalError::TooLarge)
        } else if seconds == 0 {
            Err(IntervalError::Zero)
        } else {
            Ok(seconds as u64)
        },
    }
}

/// More digits never write a smaller number.
proof fn lemma_digits_value_grows(digits: Seq<u8>, n: int)
    requires
        0 <= n <= digits.len(),
        all_digits(digits),
    ensures
        digits_value(digits.take(n)) <= digits_value(digits),
    decreases digits.len() - n,
{
    if n == digits.len() {
        assert(digits.take(n) =~= digits);
    } else {
        lemma_digits_value_grows(digits, n + 1);
        assert(digits.take(n + 1).drop_last() =~= digits.take(n));
    }
}

/// Reads an interval in seconds: a positive number in decimal digits that
/// fits into 64 bits. A plus sign may lead it.
pub fn parse_interval(text: &str) -> (interval: Result<u64, IntervalError>)
    ensures
        interval == interval_of(text@),
{
    let bytes: &[u8] = text.as_bytes();
    let start: usize = if bytes.len() > 0 && bytes[0] == 43 {
        1
    } else {
        0
    };
    let ghost digits = without_sign(bytes@);
    if start == bytes.len() {
        return Err(IntervalError::Malformed);
    }
    let mut i: usize = start;
    while i < bytes.len()
        invariant
            start <= i <= bytes@.len(),
            bytes@ == encode_utf8(text@),
            digits == without_sign(bytes@),
            digits == bytes@.skip(start as int),
            forall|k: int| 0 <= k < i - start ==> is_digit(#[trigger] digits[k]),
        decreases bytes@.len() - i,
    {
        if bytes[i] < 48 || bytes[i] > 57 {
            proof {
                assert(!is_digit(digits[i - start]));
            }
            return Err(IntervalError::Malformed);
        }
        i = i + 1;
    }
    let mut seconds: u64 = 0;
    let mut j: usize = start;
    while j < bytes.len()
        invariant
            start <= j <= bytes@.len(),
            start < bytes@.len(),
            bytes@ == encode_utf8(text@),
            digits == without_sign(bytes@),
            digits == bytes@.skip(start as int),
            all_digits(digits),
            seconds == digits_value(digits.take(j - start)),
        decreases bytes@.len() - j,
    {
        proof {
            assert(digits.take(j - start + 1).drop_last() =~= digits.take(j - start));
            lemma_digits_value_grows(digits, j - start + 1);
        }
        let digit: u64 = (bytes[j] - 48) as u64;
        if seconds > (u64::MAX - digit) / 10 {
            return Err(IntervalError::TooLarge);
        }
        seconds = seconds * 10 + digit;
        j = j + 1;
    }
    proof {
        assert(digits.take(j - start) =~= digits);
    }
    if seconds == 0 {
        Err(IntervalError::Zero)
    } else {
        Ok(seconds)
    }
}

/// What the controller was started with.
#[derive(Debug, PartialEq, Eq)]
pub struct Settings {
    pub context: Context,
    /// The seconds between two passes; never zero.
    pub interval: u64,
}

/// The settings could not be made.
#[derive(Debug, PartialEq, Eq)]
pub enum SettingsError {
    /// The interval that was set, and why it is none.
    Interval { text: String, reason: IntervalError },
}

/// The text that is set, or what stands for a missing one.
pub open spec fn or_default(value: Option<String>, default: &str) -> Seq<char> {
    match value {
        Some(value) => value@,
        None => default@,
    }
}

fn value_or(value: Option<String>, default: &str) -> (text: String)
    ensures
        text@ == or_default(value, default),
{
    match value {
        Some(value) => value,
        None => default.to_owned(),
    }
}

impl Settings {
    /// The settings for what the environment holds: each value as it is
    /// set, a missing one by its default. An interval that is set has to be
    /// one.
    pub fn from_values(
        namespace: Option<String>,
        deployment: Option<String>,
        secret: Option<String>,
        interval: Option<String>,
    ) -> (settings: Result<Settings, SettingsError>)
        ensures
            match settings {
                Ok(settings) => {
                    &&& settings.context@ == (ContextView {
                        controller_name: CONTROLLER_NAME@,
                        namespace: or_default(namespace, DEFAULT_NAMESPACE),
                        deployment_name: or_default(deployment, DEFAULT_DEPLOYMENT),
                        secret_name: or_default(secret, DEFAULT_SECRET),
                    })
                    &&& match interval {
                        Some(text) => interval_of(text@) == Ok::<u64, IntervalError>(
                            settings.interval,
                        ),
                        None => settings.interval == DEFAULT_INTERVAL,
                    }
                    &&& settings.interval > 0
                },
                Err(SettingsError::Interval { text, reason }) => {
                    &&& interval matches Some(given)
                    &&& text@ == given@
                    &&& interval_of(given@) == Err::<u64, IntervalError>(reason)
                },
            },
    {
        let seconds = match interval {
            Some(text) => match parse_interval(text.as_str()) {
                Ok(seconds) => seconds,
                Err(reason) => {
                    return Err(SettingsError::Interval { text, reason });
                },
            },
            None => DEFAULT_INTERVAL,
        };
        let context = Context::new(
            CONTROLLER_NAME,
            value_or(namespace, DEFAULT_NAMESPACE),
            value_or(deployment, DEFAULT_DEPLOYMENT),
            value_or(secret, DEFAULT_SECRET),
        );
        Ok(Settings { context, interval: seconds })
    }
}

} // verus!
