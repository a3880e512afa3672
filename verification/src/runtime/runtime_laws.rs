//! What holds of what drives the channels, whatever happens to them.
use vstd::prelude::*;

use crate::adapters::raw;
use crate::adapters::raw::RawMessage;
use crate::id::Uuid;
use crate::runtime::channel_task;
use crate::runtime::channel_task::{ActionText, TaskEvent, TaskText};
use crate::runtime::events::EventText;
use crate::runtime::ingestor;
use crate::runtime::ingestor::ThreadChoice;
use crate::runtime::status;
use crate::runtime::status::StatusText;
use crate::time;
use crate::types::message;
use crate::types::Thread;

verus! {

// ---------------------------------------------------------------------------
// Delays
// ---------------------------------------------------------------------------

/// Each of the first six failures doubles the delay; from then on it is the
/// sixty-fourfold of the interval.
pub proof fn each_failure_doubles_the_delay(poll: nat, failures: nat)
    ensures
        failures < 6 ==> status::delay_secs(poll, failures + 1) == 2 * status::delay_secs(
            poll,
            failures,
        ),
        failures >= 6 ==> status::delay_secs(poll, failures) == 64 * poll,
        status::delay_secs(poll, 0) == poll,
{
    reveal_with_fuel(status::doubled, 8);
}

/// Chance adds its hundredths of the delay, but no more than twenty.
pub proof fn chance_adds_its_hundredths(delay: nat, jitter: nat)
    ensures
        jitter <= 20 ==> 100 * status::jitter_secs(delay, jitter) <= delay * jitter < 100
            * status::jitter_secs(delay, jitter) + 100,
        jitter > 20 ==> status::jitter_secs(delay, jitter) == status::jitter_secs(delay, 20),
{
    let n = delay * jitter;
    if jitter <= 20 {
        assert(status::jitter_secs(delay, jitter) == n / 100);
    }
}

/// A failure more adds one to the row, up to the most that can be counted.
pub proof fn a_failure_more_is_counted(failures: u32)
    ensures
        failures < u32::MAX ==> status::one_more(failures) == failures + 1,
        failures == u32::MAX ==> status::one_more(failures) == failures,
{
}

/// A status is stored by the word for it.
pub proof fn a_status_is_stored_by_its_word(attempt: nat, error: Seq<char>)
    ensures
        status::status_db_text(StatusText::Healthy) == "healthy"@,
        status::status_db_text(StatusText::Degraded(attempt)) == "degraded"@,
        status::status_db_text(StatusText::Failed(error)) == "failed"@,
{
}

/// A channel is healthy without failures, degraded with one to three of them in a
/// row, and failed, with the last error, from the fourth on.
pub proof fn failures_make_the_status(failures: nat, error: Option<Seq<char>>)
    ensures
        status::status_after(failures, error) is Healthy <==> failures == 0,
        1 <= failures <= 3 ==> status::status_after(failures, error) == StatusText::Degraded(
            failures,
        ),
        failures >= 4 ==> (error matches Some(e) ==> status::status_after(failures, error)
            == StatusText::Failed(e)),
        failures >= 4 && error is None ==> status::status_after(failures, error)
            == StatusText::Failed(Seq::empty()),
{
}

// ---------------------------------------------------------------------------
// Times
// ---------------------------------------------------------------------------

/// Of two points in time one is later, or they are the same; and what is later than
/// a later one is later.
pub proof fn points_in_time_are_ordered(a: (int, int), b: (int, int), c: (int, int))
    ensures
        time::later(a, b) || time::later(b, a) || a == b,
        !(time::later(a, b) && time::later(b, a)),
        !time::later(a, a),
        time::later(a, b) && time::later(b, c) ==> time::later(a, c),
        a.0 > b.0 ==> time::later(a, b),
{
}

// ---------------------------------------------------------------------------
// Tasks
// ---------------------------------------------------------------------------

/// A batch that came is handed on whole, for the task's channel.
pub proof fn a_batch_is_handed_on_whole(t: TaskText, batch: Seq<RawMessage>)
    requires
        batch.len() > 0,
    ensures
        channel_task::asked(t, TaskEvent::Fetched(batch)) == seq![
            ActionText::HandOn(t.channel_id, batch),
        ],
{
}

/// Once a batch was taken, the channel stands at the time of its latest message,
/// which is stored together with the adapter's cursor; the sync is published with
/// the number of messages, and the row of failures is over.
pub proof fn a_sync_is_stored_and_published(
    t: TaskText,
    batch: Seq<RawMessage>,
    cursor: Option<Seq<char>>,
)
    requires
        batch.len() > 0,
    ensures
        ({
            let fetched = channel_task::next(t, TaskEvent::Fetched(batch));
            let done = channel_task::next(fetched, TaskEvent::HandedOn(cursor));
            let actions = channel_task::asked(fetched, TaskEvent::HandedOn(cursor));
            &&& done.last_sync_at == raw::latest_of(batch)
            &&& done.failures == 0
            &&& done.last_status == StatusText::Healthy
            &&& actions.len() >= 2
            &&& actions[0] == ActionText::PersistSync(cursor, raw::latest_of(batch)->0)
            &&& actions[1] == ActionText::Publish(
                EventText::SyncSucceeded { channel_id: t.channel_id, count: batch.len() },
            )
        }),
{
    raw::latest_is_the_greatest(batch, 0);
}

/// A failure is published with its error and its number in the row, before the
/// status that it may change; nothing else of the task changes.
pub proof fn a_failure_is_published(t: TaskText, error: Seq<char>)
    requires
        t.failures < u32::MAX,
    ensures
        ({
            let after = channel_task::next(t, TaskEvent::Failed(error));
            let actions = channel_task::asked(t, TaskEvent::Failed(error));
            &&& after.failures == t.failures + 1
            &&& after.channel_id == t.channel_id
            &&& after.last_sync_at == t.last_sync_at
            &&& actions.len() >= 1
            &&& actions[0] == ActionText::Publish(
                EventText::SyncFailed {
                    channel_id: t.channel_id,
                    error,
                    attempt: (t.failures + 1) as nat,
                },
            )
        }),
{
}

/// A status that differs from the one last made known is stored and then published;
/// one that is the same is neither.
pub proof fn a_changed_status_is_made_known(t: TaskText, error: Seq<char>)
    requires
        t.failures < u32::MAX,
    ensures
        ({
            let after = channel_task::next(t, TaskEvent::Failed(error));
            let actions = channel_task::asked(t, TaskEvent::Failed(error));
            &&& after.last_status != t.last_status ==> actions.len() == 3 && actions[1]
                == ActionText::PersistStatus(after.last_status, (t.failures + 1) as nat)
                && actions[2] == ActionText::Publish(
                EventText::ChannelStatusChanged {
                    channel_id: t.channel_id,
                    status: after.last_status,
                },
            )
            &&& after.last_status == t.last_status ==> actions.len() == 1
        }),
{
}

/// A poll that brought nothing ends the row of failures and leaves the time up to
/// which the channel was read.
pub proof fn an_empty_poll_is_a_success(t: TaskText)
    ensures
        channel_task::next(t, TaskEvent::Fetched(Seq::empty())).failures == 0,
        channel_task::next(t, TaskEvent::Fetched(Seq::empty())).last_status
            == StatusText::Healthy,
        channel_task::next(t, TaskEvent::Fetched(Seq::empty())).last_sync_at == t.last_sync_at,
{
}

/// A task whose batch was not taken stops, and does nothing else.
pub proof fn a_refused_batch_stops_the_task(t: TaskText)
    ensures
        channel_task::asked(t, TaskEvent::Refused) == seq![ActionText::Stop],
        channel_task::next(t, TaskEvent::Refused).failures == t.failures,
{
}

// ---------------------------------------------------------------------------
// Threads
// ---------------------------------------------------------------------------

/// A message goes into the thread that the store has for its external thread; where
/// it has none, or the message belongs to none, it opens one of its own, with its
/// channel, its subject and its time.
pub proof fn a_message_goes_into_its_thread(
    r: ThreadChoice,
    raw: RawMessage,
    found: Option<Thread>,
    new_id: Uuid,
)
    requires
        ingestor::resolved(r, raw, found, new_id),
    ensures
        raw.external_thread_id is Some && found is Some <==> r is Existing,
        r matches ThreadChoice::Existing(t) ==> found == Some(t),
        r matches ThreadChoice::New(t) ==> {
            &&& t.id == new_id
            &&& t.channel == raw.channel
            &&& message::optional_text(t.subject) == message::optional_text(raw.subject)
            &&& message::optional_text(t.external_thread_id) == message::optional_text(
                raw.external_thread_id,
            )
            &&& t.last_message_at == raw.timestamp
            &&& t.created_at == raw.timestamp
            &&& t.message_count == 0
            &&& t.participant_ids@.len() == 0
        },
{
}

} // verus!
