//! Alerts for members who start to stream.

use crate::lists::{difference, exactly_one, missing};
use crate::text::{decimal, push_decimal, same_text};
use crate::werewolf::messages::{mention_text, push_mention};
use vstd::prelude::*;

verus! {

/// Seconds between two looks at who is streaming.
pub const POLL_SECS: u64 = 60;

/// Seconds without a failure after which the wait starts over.
pub const CALM_SECS: u64 = 60 * 60 * 24;

/// A member and the id of his channel on the streaming platform.
#[derive(Debug, Clone)]
pub struct Streamer {
    pub discord: u64,
    pub twitch: String,
}

/// The members who are live now and were not when last looked: they are
/// announced.
pub fn newly_live(last_status: &Vec<u64>, new_status: &Vec<u64>) -> (started: Vec<u64>)
    ensures
        started@ == missing(new_status@, last_status@),
{
    difference(new_status, last_status)
}

/// How a role is mentioned in a message.
pub open spec fn role_mention_text(id: u64) -> Seq<char> {
    "<@&"@ + decimal(id as nat) + ">"@
}

/// The announcement that a member is live, which calls those who hold the
/// role.
pub open spec fn alert_text(user: u64, role: u64) -> Seq<char> {
    mention_text(user) + " streamt jetzt auf "@ + role_mention_text(role)
}

/// The announcement that a member is live, which calls those who hold the
/// role.
pub fn alert(user: u64, role: u64) -> (text: String)
    ensures
        text@ == alert_text(user, role),
{
    let mut text = String::new();
    push_mention(&mut text, user);
    text.append(" streamt jetzt auf ");
    text.append("<@&");
    push_decimal(&mut text, role as u128);
    text.append(">");
    assert(text@ =~= alert_text(user, role));
    text
}

/// The members among the first `upto` whose channel is `twitch`.
pub open spec fn owners(users: Seq<Streamer>, twitch: Seq<char>, upto: int) -> Seq<u64>
    decreases upto,
{
    if upto <= 0 {
        Seq::empty()
    } else if users[upto - 1].twitch@ == twitch {
        owners(users, twitch, upto - 1).push(users[upto - 1].discord)
    } else {
        owners(users, twitch, upto - 1)
    }
}

/// The one member whose channel a stream is on. A stream of nobody's
/// channel, or of the channel of several, belongs to nobody.
pub fn streamer_of(users: &Vec<Streamer>, twitch: &str) -> (member: Option<u64>)
    ensures
        member == if owners(users@, twitch@, users@.len() as int).len() == 1 {
            Some(owners(users@, twitch@, users@.len() as int)[0])
        } else {
            None
        },
{
    let mut found: Vec<u64> = Vec::new();
    let mut i: usize = 0;
    while i < users.len()
        invariant
            i <= users.len(),
            found@ == owners(users@, twitch@, i as int),
        decreases users.len() - i,
    {
        if same_text(users[i].twitch.as_str(), twitch) {
            found.push(users[i].discord);
        }
        i += 1;
    }
    exactly_one(found)
}

/// The seconds to wait after a failure before the next attempt: twice the
/// last wait, or one second after a day without failure.
pub open spec fn backoff(calm_secs: u64, wait_secs: u64) -> int {
    if calm_secs >= CALM_SECS {
        1
    } else {
        wait_secs * 2
    }
}

/// The seconds to wait after a failure before the next attempt.
/// `calm_secs` are the seconds since the failure before.
pub fn next_wait(calm_secs: u64, wait_secs: u64) -> (secs: u64)
    requires
        wait_secs <= u64::MAX / 2,
    ensures
        secs == backoff(calm_secs, wait_secs),
{
    if calm_secs >= CALM_SECS {
        1
    } else {
        wait_secs * 2
    }
}

/// Whether a failure is reported: not the first one after a calm day.
pub fn worth_notifying(wait_secs: u64) -> (notify: bool)
    ensures
        notify == (wait_secs >= 2),
{
    wait_secs >= 2
}

} // verus!
