//! The daily log files: how they are named, what they hold and how long they
//! are kept.

use vstd::prelude::*;
use crate::number::{
    decimal, decimal_nat, is_digit, law_decimal_reads_back, lemma_decimal_nat, parse_i64,
    parse_i64_spec, push_i64, wrap_i64, wrapped,
};
use crate::paths::{join, join_spec};
use crate::text::{has_suffix, strip_suffix, strip_suffix_spec};

verus! {

/// The day of a time: whole days since the beginning of 1970, towards zero.
pub open spec fn day_of(time: int) -> int {
    if time >= 0 {
        time / 86_400
    } else {
        -((-time) / 86_400)
    }
}

/// The name of the log of the day of a time.
pub open spec fn log_name_spec(time: int) -> Seq<char> {
    decimal(day_of(time)) + ".log"@
}

/// The path of the log of the day of a time, in the directory of the logs.
pub fn log_path(dir: &str, time: i64) -> (r: String)
    ensures
        r@ == join_spec(dir@, log_name_spec(time as int)),
{
    let day: i64 = if time >= 0 {
        time / 86_400
    } else if time == i64::MIN {
        -106_751_991_167_300
    } else {
        -((-time) / 86_400)
    };
    let mut name = String::new();
    push_i64(&mut name, day);
    name.append(".log");
    assert(name@ =~= log_name_spec(time as int));
    join(dir, name.as_str())
}

/// A line of the log.
pub fn log_line(time: i64, message: &str) -> (r: String)
    ensures
        r@ == decimal(time as int) + " "@ + message@ + "\n"@,
{
    let mut out = String::new();
    push_i64(&mut out, time);
    out.append(" ");
    out.append(message);
    out.append("\n");
    assert(out@ =~= decimal(time as int) + " "@ + message@ + "\n"@);
    out
}

/// The time before which logs are removed: so many days before `time`. The days
/// in seconds are capped at what a `u64` holds, read as an `i64`, and the
/// difference at what an `i64` holds.
pub open spec fn cutoff_spec(time: int, retention_days: int) -> int {
    let seconds = if retention_days * 86_400 <= u64::MAX {
        retention_days * 86_400
    } else {
        u64::MAX as int
    };
    let limit = time - wrapped(seconds);
    if limit < i64::MIN {
        i64::MIN as int
    } else if limit > i64::MAX {
        i64::MAX as int
    } else {
        limit
    }
}

/// The time before which logs are removed.
pub fn log_cutoff(time: i64, retention_days: u64) -> (r: i64)
    ensures
        r == cutoff_spec(time as int, retention_days as int),
{
    let seconds: u64 = if retention_days <= u64::MAX / 86_400 {
        retention_days * 86_400
    } else {
        u64::MAX
    };
    let limit: i128 = time as i128 - wrap_i64(seconds) as i128;
    if limit < i64::MIN as i128 {
        i64::MIN
    } else if limit > i64::MAX as i128 {
        i64::MAX
    } else {
        limit as i64
    }
}

/// The day that the name of a log stands for, if it is one.
pub open spec fn named_day(name: Seq<char>) -> Option<int> {
    parse_i64_spec(strip_suffix_spec(name, ".log"@))
}

/// Whether the beginning of the named day, in seconds, fits an `i64`.
pub open spec fn day_in_range(name: Seq<char>) -> bool {
    named_day(name) matches Some(day) ==> i64::MIN <= day * 86_400 <= i64::MAX
}

/// Whether a file among the logs is named for a day that began before `cutoff`.
pub open spec fn expired_spec(name: Seq<char>, cutoff: int) -> bool {
    named_day(name) matches Some(day) && day * 86_400 < cutoff
}

fn read_day(name: &str) -> (r: Option<i64>)
    ensures
        named_day(name@) == (match r {
            Some(day) => Some(day as int),
            None => None,
        }),
{
    proof {
        reveal_strlit(".log");
    }
    match parse_i64(strip_suffix(name, ".log")) {
        Ok(day) => Some(day),
        Err(_) => None,
    }
}

/// Whether the beginning of the named day can be computed.
pub fn log_day_fits(name: &str) -> (r: bool)
    ensures
        r == day_in_range(name@),
{
    match read_day(name) {
        Some(day) => {
            let start: i128 = day as i128 * 86_400;
            i64::MIN as i128 <= start && start <= i64::MAX as i128
        },
        None => true,
    }
}

/// Whether a file among the logs is to be removed.
pub fn log_expired(name: &str, cutoff: i64) -> (r: bool)
    requires
        day_in_range(name@),
    ensures
        r == expired_spec(name@, cutoff as int),
{
    match read_day(name) {
        Some(day) => day * 86_400 < cutoff,
        None => false,
    }
}

/// The name of a log is read as the day that it was named for.
pub proof fn law_log_name_reads_back(time: i64)
    ensures
        named_day(log_name_spec(time as int)) == Some(day_of(time as int)),
        day_in_range(log_name_spec(time as int)),
{
    let day = day_of(time as int);
    lemma_name_reads_back(day);
    law_decimal_reads_back(day, i64::MIN as int, i64::MAX as int);
}

/// With at least one day of retention the log that is being written is kept.
pub proof fn law_current_log_is_kept(time: i64, retention_days: u64)
    requires
        time >= 0,
        1 <= retention_days,
        retention_days * 86_400 <= i64::MAX,
    ensures
        !expired_spec(
            log_name_spec(time as int),
            cutoff_spec(time as int, retention_days as int),
        ),
{
    law_log_name_reads_back(time);
}

/// A log is removed once the beginning of its day lies more than the retention in
/// the past.
pub proof fn law_old_log_is_removed(written: i64, time: i64, retention_days: u64)
    requires
        written >= 0,
        retention_days * 86_400 <= i64::MAX,
        day_of(written as int) * 86_400 + retention_days * 86_400 < time,
    ensures
        expired_spec(
            log_name_spec(written as int),
            cutoff_spec(time as int, retention_days as int),
        ),
{
    law_log_name_reads_back(written);
}

/// The log of a time is named for the whole days since the beginning of 1970.
pub proof fn law_log_is_named_for_its_day(time: i64)
    requires
        time >= 0,
    ensures
        log_name_spec(time as int) == decimal(time as int / 86_400) + ".log"@,
{
}

/// A log is removed just if its day began before the present time less the days of
/// the retention.
pub proof fn law_logs_are_kept_for_the_retention(day: i64, time: i64, retention_days: u64)
    requires
        retention_days * 86_400 <= i64::MAX,
        time >= 0,
    ensures
        expired_spec(
            decimal(day as int) + ".log"@,
            cutoff_spec(time as int, retention_days as int),
        ) == (day * 86_400 < time - retention_days * 86_400),
{
    lemma_name_reads_back(day as int);
    law_decimal_reads_back(day as int, i64::MIN as int, i64::MAX as int);
}

/// A file whose name, without the ending, is no number is kept.
pub proof fn law_other_files_are_kept(name: Seq<char>, cutoff: int)
    requires
        parse_i64_spec(strip_suffix_spec(name, ".log"@)) is None,
    ensures
        !expired_spec(name, cutoff),
{
}

/// The ending is taken off the name of a log.
proof fn lemma_name_reads_back(day: int)
    ensures
        strip_suffix_spec(decimal(day) + ".log"@, ".log"@) == decimal(day),
{
    let digits = decimal(day);
    let name = digits + ".log"@;
    reveal_strlit(".log");
    assert(name.skip(name.len() - 4) =~= ".log"@);
    assert(name.take(name.len() - 4) =~= digits);
    if has_suffix(digits, ".log"@) {
        let tail = digits.skip(digits.len() - 4);
        assert(tail[3] == digits.last());
        lemma_decimal_nat(if day < 0 { (-day) as nat } else { day as nat });
        if day < 0 {
            assert(digits.last() == decimal_nat((-day) as nat).last());
        }
        assert(is_digit(digits.last()));
    }
    assert(strip_suffix_spec(digits, ".log"@) == digits);
}

} // verus!
