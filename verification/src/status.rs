//! The status line: for how long the process has been up and how many jokes
//! it has served.

use crate::state::{whole_seconds_between, ServiceState, Timestamp};
use crate::text::{decimal, decimal_is_digits, push_decimal};
use vstd::prelude::*;
use vstd::string::StringExecFns;

verus! {

/// One part of a compound duration: the numeral of `amount` followed by the
/// letter of its unit, or nothing at all where `amount` is zero.
pub open spec fn unit_part(amount: nat, unit: char) -> Seq<char> {
    if amount == 0 {
        Seq::empty()
    } else {
        decimal(amount).push(unit)
    }
}

/// The days in a span of `seconds`.
pub open spec fn days_in(seconds: nat) -> nat {
    seconds / 86_400
}

/// The hours in a span of `seconds`, the whole days taken out.
pub open spec fn hours_in(seconds: nat) -> nat {
    seconds % 86_400 / 3_600
}

/// The minutes in a span of `seconds`, the whole hours taken out.
pub open spec fn minutes_in(seconds: nat) -> nat {
    seconds % 86_400 % 3_600 / 60
}

/// The seconds in a span of `seconds`, the whole minutes taken out.
pub open spec fn seconds_in(seconds: nat) -> nat {
    seconds % 86_400 % 3_600 % 60
}

/// A span of `seconds` as a compound duration: its days, hours, minutes and
/// seconds, each with the letter of its unit (`d`, `h`, `m`, `s`), the
/// largest unit first, units of amount zero left out, nothing between the
/// parts. A span of no seconds is written "0s".
pub open spec fn dhms(seconds: nat) -> Seq<char> {
    if seconds == 0 {
        seq!['0', 's']
    } else {
        unit_part(days_in(seconds), 'd') + unit_part(hours_in(seconds), 'h') + unit_part(
            minutes_in(seconds),
            'm',
        ) + unit_part(seconds_in(seconds), 's')
    }
}

/// `compound_duration::format_dhms` on a `u64`: the compound duration of
/// that many seconds, as `dhms` writes it out. The outside function fails
/// only where its argument does not fit a `u64`, which cannot be here.
#[verifier::external_body]
fn format_dhms(seconds: u64) -> (text: String)
    ensures
        text@ == dhms(seconds as nat),
{
    compound_duration::format_dhms(seconds)
}

/// What the status line begins with; the uptime follows it.
pub const STATUS_LEAD: &'static str = "I'm up ";

/// What stands in the status line between the uptime and the count.
pub const STATUS_MIDDLE: &'static str = " and I told ";

/// What the status line ends with, behind the count.
pub const STATUS_END: &'static str = " jokes since my last crash.";

/// What the status line says of the time: for how long the process is up.
pub open spec fn uptime_clause(uptime: nat) -> Seq<char> {
    STATUS_LEAD@ + dhms(uptime)
}

/// What the status line says of the jokes: how many were served.
pub open spec fn count_clause(served: nat) -> Seq<char> {
    STATUS_MIDDLE@ + decimal(served) + STATUS_END@
}

/// The status line of a process that has been up for `uptime` seconds and
/// has served `served` jokes.
pub open spec fn status_text(uptime: nat, served: nat) -> Seq<char> {
    uptime_clause(uptime) + count_clause(served)
}

/// The status line of `state` at the time `now`. The uptime is counted in
/// whole seconds from the start of the process to `now`, so `now` must not
/// lie before the start.
pub fn format_status(state: &ServiceState, now: &Timestamp) -> (text: String)
    requires
        state.started().since_epoch() <= now.since_epoch(),
    ensures
        text@ == status_text(
            whole_seconds_between(state.started(), *now) as nat,
            state.served(),
        ),
{
    let uptime = state.uptime_seconds(now).unwrap();
    let mut text = String::from_str(STATUS_LEAD);
    text.append(format_dhms(uptime).as_str());
    text.append(STATUS_MIDDLE);
    push_decimal(&mut text, state.served_count());
    text.append(STATUS_END);
    assert(text@ == status_text(uptime as nat, state.served()));
    text
}

/// The parts of a compound duration add up to the span, and each part but
/// the days stays below one of the next larger unit.
pub proof fn dhms_parts_add_up(seconds: nat)
    ensures
        days_in(seconds) * 86_400 + hours_in(seconds) * 3_600 + minutes_in(seconds) * 60
            + seconds_in(seconds) == seconds,
        hours_in(seconds) < 24,
        minutes_in(seconds) < 60,
        seconds_in(seconds) < 60,
{
}

/// A compound duration is never empty, and ends in the letter of a unit.
pub proof fn dhms_is_not_empty(seconds: nat)
    ensures
        dhms(seconds).len() >= 2,
        dhms(seconds).last() == 'd' || dhms(seconds).last() == 'h' || dhms(seconds).last() == 'm'
            || dhms(seconds).last() == 's',
{
    if seconds > 0 {
        dhms_parts_add_up(seconds);
        decimal_is_digits(days_in(seconds));
        decimal_is_digits(hours_in(seconds));
        decimal_is_digits(minutes_in(seconds));
        decimal_is_digits(seconds_in(seconds));
    }
}

/// The status line holds the uptime as a compound duration and the number of
/// served jokes as a numeral: the duration stands at the end of its head, and
/// the line ends with the clause that counts the jokes, which depends on
/// nothing but the count.
pub proof fn status_holds_uptime_and_count(uptime: nat, served: nat)
    ensures
        ({
            let line = status_text(uptime, served);
            let head = uptime_clause(uptime);
            let tail = count_clause(served);
            let lead = STATUS_MIDDLE@;
            &&& line.subrange(0, head.len() as int) == head
            &&& head.subrange(head.len() - dhms(uptime).len(), head.len() as int) == dhms(uptime)
            &&& line.subrange(head.len() as int, line.len() as int) == tail
            &&& tail.subrange(lead.len() as int, (lead.len() + decimal(served).len()) as int)
                == decimal(served)
        }),
{
}

/// Two status lines of one count end alike, however long the process was up
/// at the time of each: they say the same of the jokes.
pub proof fn status_count_is_stable(first_uptime: nat, second_uptime: nat, served: nat)
    ensures
        ({
            let first = status_text(first_uptime, served);
            let second = status_text(second_uptime, served);
            first.subrange(uptime_clause(first_uptime).len() as int, first.len() as int)
                == second.subrange(uptime_clause(second_uptime).len() as int, second.len() as int)
        }),
{
    status_holds_uptime_and_count(first_uptime, served);
    status_holds_uptime_and_count(second_uptime, served);
}

} // verus!
