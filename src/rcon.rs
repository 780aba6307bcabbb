use vstd::prelude::*;
use vstd::string::*;

use crate::text::{decimal, push_decimal};

verus! {

/// How many times the supervisor tries to open a remote-console session.
pub const RCON_MAX_ATTEMPTS: u32 = 3;

/// Where and how to open a remote-console session.
#[derive(Debug)]
pub struct RconTarget {
    /// `localhost:<port>`.
    pub address: String,
    pub password: String,
}

impl RconTarget {
    /// A copy of this target.
    pub fn copy(&self) -> (r: RconTarget)
        ensures
            r.address@ == self.address@,
            r.password@ == self.password@,
    {
        RconTarget { address: self.address.clone(), password: self.password.clone() }
    }
}

/// The address of the remote console on this host at `port`.
pub open spec fn rcon_address(port: u64) -> Seq<char> {
    "localhost:"@ + decimal(port as nat)
}

/// The session target that the instance's settings describe: only when the feature is enabled
/// and both a password and a port are set.
pub fn rcon_target(enabled: Option<bool>, password: Option<String>, port: Option<u64>) -> (r:
    Option<RconTarget>)
    ensures
        match (enabled, password, port) {
            (Some(true), Some(pw), Some(p)) => r matches Some(t) && t.address@ == rcon_address(
                p,
            ) && t.password@ == pw@,
            _ => r is None,
        },
{
    match (enabled, password, port) {
        (Some(true), Some(pw), Some(p)) => {
            let mut address = String::from_str("localhost:");
            push_decimal(&mut address, p);
            Some(RconTarget { address, password: pw })
        },
        _ => None,
    }
}

/// What the supervisor does after one connection attempt.
#[derive(Debug, Clone, Copy, PartialEq, Eq, Structural)]
pub enum RconStep {
    /// The session is open: keep it.
    Connected,
    /// Wait this many seconds, then try again.
    RetryAfter(u64),
    /// Wait this many seconds, then carry on without a session.
    GiveUpAfter(u64),
}

/// The delay after the failed attempt numbered `attempt` (from 0): it doubles each time.
pub open spec fn backoff_secs(attempt: nat) -> nat
    decreases attempt,
{
    if attempt == 0 {
        1
    } else {
        2 * backoff_secs((attempt - 1) as nat)
    }
}

/// The step after attempt `attempt` (from 0) has succeeded or failed.
pub open spec fn rcon_step(attempt: nat, connected: bool) -> RconStep {
    if connected {
        RconStep::Connected
    } else if attempt + 1 < RCON_MAX_ATTEMPTS {
        RconStep::RetryAfter(backoff_secs(attempt) as u64)
    } else {
        RconStep::GiveUpAfter(backoff_secs(attempt) as u64)
    }
}

/// Decides what follows connection attempt `attempt` (from 0).
pub fn rcon_after_attempt(attempt: u32, connected: bool) -> (r: RconStep)
    requires
        attempt < RCON_MAX_ATTEMPTS,
    ensures
        r == rcon_step(attempt as nat, connected),
{
    if connected {
        return RconStep::Connected;
    }
    let mut delay: u64 = 1;
    let mut i: u32 = 0;
    while i < attempt
        invariant
            i <= attempt < RCON_MAX_ATTEMPTS,
            delay == backoff_secs(i as nat),
            delay <= 4,
            i < attempt ==> delay <= 2,
            i + 1 < attempt ==> delay <= 1,
        decreases attempt - i,
    {
        delay = delay * 2;
        i = i + 1;
        assert(backoff_secs(i as nat) == 2 * backoff_secs((i - 1) as nat));
    }
    if attempt + 1 < RCON_MAX_ATTEMPTS {
        RconStep::RetryAfter(delay)
    } else {
        RconStep::GiveUpAfter(delay)
    }
}

/// A server that refuses every attempt is tried exactly three times, with waits of 1, 2 and 4
/// seconds, after which the supervisor gives up.
pub proof fn law_rcon_refused_three_times()
    ensures
        rcon_step(0, false) == RconStep::RetryAfter(1),
        rcon_step(1, false) == RconStep::RetryAfter(2),
        rcon_step(2, false) == RconStep::GiveUpAfter(4),
{
    reveal_with_fuel(backoff_secs, 3);
}

} // verus!
