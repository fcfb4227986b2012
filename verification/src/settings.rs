//! Application settings, kept as text in the settings table.

use vstd::prelude::*;
use vstd::string::*;
use crate::connection::DEFAULT_IDLE_TIMEOUT_SECS;
use crate::text::{
    chars_of, nat_text, parse_reads_back_u64_text, parse_u64, parse_u64_spec, u64_res_view, u64_text,
    IntErrorKind,
};

verus! {

/// The settings key under which the idle timeout is stored.
pub const KEY_IDLE_TIMEOUT_SECS: &'static str = "idle_timeout_secs";

/// Longest idle timeout accepted: 24 hours.
pub const MAX_IDLE_TIMEOUT_SECS: u64 = 86400;

/// The text of std's `ParseIntError` for each kind of failure.
pub open spec fn int_error_text(k: IntErrorKind) -> Seq<char> {
    match k {
        IntErrorKind::Empty => "cannot parse integer from empty string"@,
        IntErrorKind::InvalidDigit => "invalid digit found in string"@,
        IntErrorKind::PosOverflow => "number too large to fit in target type"@,
    }
}

pub fn int_error_message(k: IntErrorKind) -> (s: String)
    ensures
        s@ == int_error_text(k),
{
    match k {
        IntErrorKind::Empty => String::from_str("cannot parse integer from empty string"),
        IntErrorKind::InvalidDigit => String::from_str("invalid digit found in string"),
        IntErrorKind::PosOverflow => String::from_str("number too large to fit in target type"),
    }
}

/// The idle timeout a stored setting gives: the default when nothing is
/// stored, the stored number otherwise, an error when it is not a `u64`.
pub open spec fn idle_timeout_spec(stored: Option<Seq<char>>) -> Result<u64, Seq<char>> {
    match stored {
        None => Ok(DEFAULT_IDLE_TIMEOUT_SECS),
        Some(s) => match parse_u64_spec(s) {
            Ok(n) => Ok(n),
            Err(k) => Err(int_error_text(k)),
        },
    }
}

/// Reads the stored idle timeout setting.
pub fn idle_timeout_from_setting(stored: Option<String>) -> (r: Result<u64, String>)
    ensures
        u64_res_view(r) == idle_timeout_spec(match stored {
            Some(s) => Some(s@),
            None => None,
        }),
{
    match stored {
        None => Ok(DEFAULT_IDLE_TIMEOUT_SECS),
        Some(s) => match parse_u64(&chars_of(s.as_str())) {
            Ok(n) => Ok(n),
            Err(k) => Err(int_error_message(k)),
        },
    }
}

/// The text an idle timeout is stored as: its decimal digits.
pub fn idle_timeout_setting_text(secs: u64) -> (s: String)
    ensures
        s@ == nat_text(secs as nat),
{
    u64_text(secs)
}

/// An idle timeout that was stored reads back as the same number of
/// seconds.
pub proof fn idle_timeout_reads_back(secs: u64)
    ensures
        idle_timeout_spec(Some(nat_text(secs as nat))) == Ok::<u64, Seq<char>>(secs),
{
    parse_reads_back_u64_text(secs);
}

/// A new idle timeout is accepted up to 24 hours.
pub fn check_idle_timeout_secs(secs: u64) -> (r: Result<u64, String>)
    ensures
        secs <= MAX_IDLE_TIMEOUT_SECS ==> r == Ok::<u64, String>(secs),
        secs > MAX_IDLE_TIMEOUT_SECS ==> (r matches Err(e) && e@
            == "空闲超时时间不能超过 24 小时 (86400 秒)"@),
{
    if secs > MAX_IDLE_TIMEOUT_SECS {
        return Err(String::from_str("空闲超时时间不能超过 24 小时 (86400 秒)"));
    }
    Ok(secs)
}

} // verus!
