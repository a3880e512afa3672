//! The health of a channel.
use vstd::prelude::*;

use crate::text::str_eq;

verus! {

/// The health of a channel.
#[derive(Debug)]
pub enum ChannelStatus {
    Healthy,
    /// The channel has failed one to three times in a row. `attempt` is the
    /// number of failures, which is stored beside the status.
    Degraded { attempt: u32 },
    Failed { last_error: String },
}

/// The health of a channel as a mathematical value.
pub enum StatusText {
    Healthy,
    Degraded(nat),
    Failed(Seq<char>),
}

impl View for ChannelStatus {
    type V = StatusText;

    open spec fn view(&self) -> StatusText {
        match *self {
            ChannelStatus::Healthy => StatusText::Healthy,
            ChannelStatus::Degraded { attempt } => StatusText::Degraded(attempt as nat),
            ChannelStatus::Failed { last_error } => StatusText::Failed(last_error@),
        }
    }
}

/// The text by which a status is stored.
pub open spec fn status_db_text(s: StatusText) -> Seq<char> {
    match s {
        StatusText::Healthy => "healthy"@,
        StatusText::Degraded(_) => "degraded"@,
        StatusText::Failed(_) => "failed"@,
    }
}

impl Default for ChannelStatus {
    fn default() -> (r: ChannelStatus)
        ensures
            r@ == StatusText::Healthy,
    {
        ChannelStatus::Healthy
    }
}

impl ChannelStatus {
    /// The text by which the status is stored.
    pub fn db_str(&self) -> (r: &'static str)
        ensures
            r@ == status_db_text(self@),
    {
        match self {
            ChannelStatus::Healthy => "healthy",
            ChannelStatus::Degraded { .. } => "degraded",
            ChannelStatus::Failed { .. } => "failed",
        }
    }

    /// Whether two statuses are the same.
    pub fn same(&self, other: &ChannelStatus) -> (r: bool)
        ensures
            r == (self@ == other@),
    {
        match (self, other) {
            (ChannelStatus::Healthy, ChannelStatus::Healthy) => true,
            (
                ChannelStatus::Degraded { attempt: a },
                ChannelStatus::Degraded { attempt: b },
            ) => *a == *b,
            (
                ChannelStatus::Failed { last_error: a },
                ChannelStatus::Failed { last_error: b },
            ) => str_eq(a.as_str(), b.as_str()),
            _ => false,
        }
    }

    /// A copy of the status.
    pub fn copy(&self) -> (r: ChannelStatus)
        ensures
            r@ == self@,
    {
        match self {
            ChannelStatus::Healthy => ChannelStatus::Healthy,
            ChannelStatus::Degraded { attempt } => ChannelStatus::Degraded { attempt: *attempt },
            ChannelStatus::Failed { last_error } => ChannelStatus::Failed {
                last_error: last_error.clone(),
            },
        }
    }
}

/// The failures of a channel in a row.
#[derive(Clone, Copy, Debug, PartialEq, Eq, Structural)]
pub struct BackoffState {
    pub consecutive_failures: u32,
}

/// The status of a channel with this many failures in a row.
pub open spec fn status_after(failures: nat, last_error: Option<Seq<char>>) -> StatusText {
    if failures == 0 {
        StatusText::Healthy
    } else if failures <= 3 {
        StatusText::Degraded(failures)
    } else {
        StatusText::Failed(
            match last_error {
                Some(e) => e,
                None => Seq::empty(),
            },
        )
    }
}

/// One more failure, as far as they can be counted.
pub open spec fn one_more(failures: u32) -> u32 {
    if failures < u32::MAX {
        (failures + 1) as u32
    } else {
        failures
    }
}

/// How often the delay is doubled at most.
pub const MAX_DOUBLINGS: u32 = 6;

/// The most hundredths of a delay that chance adds.
pub const MAX_JITTER: u32 = 20;

/// A number doubled `n` times.
pub open spec fn doubled(x: nat, n: nat) -> nat
    decreases n,
{
    if n == 0 {
        x
    } else {
        2 * doubled(x, (n - 1) as nat)
    }
}

/// The delay of a channel with this many failures in a row: its interval, doubled
/// for each failure, up to six times.
pub open spec fn delay_secs(poll_interval_secs: nat, failures: nat) -> nat {
    doubled(
        poll_interval_secs,
        if failures < MAX_DOUBLINGS {
            failures
        } else {
            MAX_DOUBLINGS as nat
        },
    )
}

/// What chance adds to a delay.
pub open spec fn jitter_secs(delay: nat, jitter: nat) -> nat {
    delay * (if jitter < MAX_JITTER {
        jitter
    } else {
        MAX_JITTER as nat
    }) / 100
}

/// A number doubled up to six times grows to no more than its sixty-fourfold.
proof fn lemma_doubled(x: nat, n: nat)
    requires
        n <= MAX_DOUBLINGS,
    ensures
        x <= doubled(x, n) <= 64 * x,
        n > 0 ==> doubled(x, n) == 2 * doubled(x, (n - 1) as nat),
{
    reveal_with_fuel(doubled, 7);
}

/// A channel without failures waits for its interval, and at most a fifth more;
/// with each failure it waits no less than before.
pub proof fn delay_grows_from_the_interval(poll: nat, failures: nat, jitter: nat)
    ensures
        delay_secs(poll, 0) == poll,
        5 * jitter_secs(poll, jitter) <= poll,
        poll <= delay_secs(poll, failures) <= delay_secs(poll, failures + 1),
{
    let share = if jitter < MAX_JITTER {
        jitter
    } else {
        MAX_JITTER as nat
    };
    assert(5 * (poll * share / 100) <= poll) by (nonlinear_arith)
        requires
            share <= 20,
    ;
    if failures < MAX_DOUBLINGS {
        lemma_doubled(poll, failures);
        lemma_doubled(poll, failures + 1);
    } else {
        lemma_doubled(poll, MAX_DOUBLINGS as nat);
    }
}

impl BackoffState {
    /// A success ends the row of failures.
    pub fn record_success(&mut self)
        ensures
            final(self).consecutive_failures == 0,
    {
        self.consecutive_failures = 0;
    }

    /// A failure adds to the row.
    pub fn record_failure(&mut self)
        ensures
            final(self).consecutive_failures == one_more(old(self).consecutive_failures),
    {
        if self.consecutive_failures < u32::MAX {
            self.consecutive_failures = self.consecutive_failures + 1;
        }
    }

    /// The status of the channel.
    pub fn status(&self, last_error: Option<&str>) -> (r: ChannelStatus)
        ensures
            r@ == status_after(
                self.consecutive_failures as nat,
                match last_error {
                    Some(e) => Some(e@),
                    None => None,
                },
            ),
    {
        if self.consecutive_failures == 0 {
            ChannelStatus::Healthy
        } else if self.consecutive_failures <= 3 {
            ChannelStatus::Degraded { attempt: self.consecutive_failures }
        } else {
            match last_error {
                Some(e) => ChannelStatus::Failed { last_error: e.to_owned() },
                None => {
                    let empty = String::new();
                    proof {
                        assert(empty@ =~= Seq::empty());
                    }
                    ChannelStatus::Failed { last_error: empty }
                },
            }
        }
    }

    /// The seconds to wait before the next fetch. `jitter` is what chance adds,
    /// in hundredths of the delay; no more than a fifth of it is added.
    pub fn next_delay_secs(&self, poll_interval_secs: u32, jitter: u32) -> (r: u64)
        ensures
            r == delay_secs(poll_interval_secs as nat, self.consecutive_failures as nat)
                + jitter_secs(
                delay_secs(poll_interval_secs as nat, self.consecutive_failures as nat),
                jitter as nat,
            ),
    {
        let mut delay: u64 = poll_interval_secs as u64;
        let mut i: u32 = 0;
        let ghost poll = poll_interval_secs as nat;
        let rounds: u32 = if self.consecutive_failures < MAX_DOUBLINGS {
            self.consecutive_failures
        } else {
            MAX_DOUBLINGS
        };
        while i < rounds
            invariant
                i <= rounds <= MAX_DOUBLINGS,
                poll <= u32::MAX,
                delay == doubled(poll, i as nat),
                delay <= 64 * poll,
            decreases rounds - i,
        {
            proof {
                lemma_doubled(poll, (i + 1) as nat);
                lemma_doubled(poll, i as nat);
            }
            delay = delay * 2;
            i += 1;
        }
        let share: u64 = if jitter < MAX_JITTER {
            jitter as u64
        } else {
            MAX_JITTER as u64
        };
        proof {
            lemma_doubled(poll, rounds as nat);
            assert(delay * share <= u32::MAX * 64 * 20) by (nonlinear_arith)
                requires
                    delay <= u32::MAX * 64,
                    share <= 20,
            ;
        }
        delay + delay * share / 100
    }
}

} // verus!
