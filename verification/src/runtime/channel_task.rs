//! The task that polls one channel.
use vstd::prelude::*;

use crate::adapters::raw;
use crate::adapters::raw::{latest_timestamp, RawMessage};
use crate::id::Uuid;
use crate::runtime::events::{EventText, RuntimeEvent};
use crate::runtime::ingestor::IngestJob;
use crate::runtime::status;
use crate::runtime::status::{BackoffState, ChannelStatus, StatusText};
use crate::time::Timestamp;
use crate::types::message;
use crate::types::ChannelConfig;

verus! {

/// A batch that is being handed on.
#[derive(Debug)]
pub struct HandOver {
    pub count: usize,
    /// The time of the latest message.
    pub latest: Timestamp,
}

/// What a task remembers between two events.
#[derive(Debug)]
pub struct TaskState {
    pub channel_id: Uuid,
    pub backoff: BackoffState,
    /// The status that was last made known.
    pub last_status: ChannelStatus,
    /// From when on messages are fetched.
    pub last_sync_at: Option<Timestamp>,
    /// The batch that is being handed on.
    pub awaiting: Option<HandOver>,
}

/// The state as a mathematical value.
#[verifier::ext_equal]
pub struct TaskText {
    pub channel_id: Uuid,
    pub failures: u32,
    pub last_status: StatusText,
    pub last_sync_at: Option<(int, int)>,
    pub awaiting: Option<(nat, (int, int))>,
}

impl View for TaskState {
    type V = TaskText;

    open spec fn view(&self) -> TaskText {
        TaskText {
            channel_id: self.channel_id,
            failures: self.backoff.consecutive_failures,
            last_status: self.last_status@,
            last_sync_at: match self.last_sync_at {
                Some(t) => Some(t@),
                None => None,
            },
            awaiting: match self.awaiting {
                Some(h) => Some((h.count as nat, h.latest@)),
                None => None,
            },
        }
    }
}

/// Something that a task does.
#[derive(Debug)]
pub enum TaskAction {
    /// Hand the batch on to the ingestor, and tell whether it was taken.
    HandOn { job: IngestJob },
    /// Store the adapter's cursor and the time up to which the channel was read.
    PersistSync { cursor: Option<String>, synced_at: Timestamp },
    /// Store the status of the channel.
    PersistStatus { status: ChannelStatus, consecutive_failures: u32 },
    Publish { event: RuntimeEvent },
    /// Poll no more.
    Stop,
}

/// An action as a mathematical value.
pub enum ActionText {
    HandOn(Uuid, Seq<RawMessage>),
    PersistSync(Option<Seq<char>>, (int, int)),
    PersistStatus(StatusText, nat),
    Publish(EventText),
    Stop,
}

impl View for TaskAction {
    type V = ActionText;

    open spec fn view(&self) -> ActionText {
        match *self {
            TaskAction::HandOn { job } => ActionText::HandOn(job.channel_id, job.batch@),
            TaskAction::PersistSync { cursor, synced_at } => {
                ActionText::PersistSync(message::optional_text(cursor), synced_at@)
            },
            TaskAction::PersistStatus { status, consecutive_failures } => {
                ActionText::PersistStatus(status@, consecutive_failures as nat)
            },
            TaskAction::Publish { event } => ActionText::Publish(event@),
            TaskAction::Stop => ActionText::Stop,
        }
    }
}

/// The actions that a vector holds.
pub open spec fn action_texts(v: Seq<TaskAction>) -> Seq<ActionText> {
    v.map_values(|a: TaskAction| a@)
}

/// Something that happens to a task.
pub enum TaskEvent {
    /// The adapter gave a batch.
    Fetched(Seq<RawMessage>),
    /// The ingestor took the batch; the adapter then stood at this cursor.
    HandedOn(Option<Seq<char>>),
    /// The ingestor did not take the batch.
    Refused,
    /// The adapter failed.
    Failed(Seq<char>),
}

/// A status that differs from the one last made known is stored and published,
/// in that order.
pub open spec fn status_actions(
    channel_id: Uuid,
    last: StatusText,
    new: StatusText,
    failures: nat,
) -> Seq<ActionText> {
    if new == last {
        Seq::empty()
    } else {
        seq![
            ActionText::PersistStatus(new, failures),
            ActionText::Publish(EventText::ChannelStatusChanged { channel_id, status: new }),
        ]
    }
}

/// The state once a poll has gone well.
pub open spec fn healthy(t: TaskText) -> TaskText {
    TaskText { failures: 0, last_status: StatusText::Healthy, awaiting: None, ..t }
}

/// The state after an event.
pub open spec fn next(t: TaskText, e: TaskEvent) -> TaskText {
    match e {
        TaskEvent::Fetched(batch) => if batch.len() == 0 {
            healthy(t)
        } else {
            TaskText { awaiting: Some((batch.len(), raw::latest_of(batch)->0)), ..t }
        },
        TaskEvent::HandedOn(_) => match t.awaiting {
            Some((_, latest)) => TaskText { last_sync_at: Some(latest), ..healthy(t) },
            None => t,
        },
        TaskEvent::Refused => TaskText { awaiting: None, ..t },
        TaskEvent::Failed(error) => {
            let failures = status::one_more(t.failures);
            TaskText {
                failures,
                last_status: status::status_after(failures as nat, Some(error)),
                awaiting: None,
                ..t
            }
        },
    }
}

/// What a task does upon an event. A batch is handed on; once it was taken, the
/// sync state is stored, the sync is published and a status that has changed is
/// made known, in that order.
pub open spec fn asked(t: TaskText, e: TaskEvent) -> Seq<ActionText> {
    match e {
        TaskEvent::Fetched(batch) => if batch.len() == 0 {
            status_actions(t.channel_id, t.last_status, StatusText::Healthy, 0)
        } else {
            seq![ActionText::HandOn(t.channel_id, batch)]
        },
        TaskEvent::HandedOn(cursor) => match t.awaiting {
            Some((count, latest)) => seq![
                ActionText::PersistSync(cursor, latest),
                ActionText::Publish(EventText::SyncSucceeded { channel_id: t.channel_id, count }),
            ] + status_actions(t.channel_id, t.last_status, StatusText::Healthy, 0),
            None => Seq::empty(),
        },
        TaskEvent::Refused => seq![ActionText::Stop],
        TaskEvent::Failed(error) => {
            let failures = status::one_more(t.failures) as nat;
            seq![
                ActionText::Publish(
                    EventText::SyncFailed { channel_id: t.channel_id, error, attempt: failures },
                ),
            ] + status_actions(
                t.channel_id,
                t.last_status,
                status::status_after(failures, Some(error)),
                failures,
            )
        },
    }
}

/// The state after a row of events.
pub open spec fn after_all(t: TaskText, events: Seq<TaskEvent>) -> TaskText
    decreases events.len(),
{
    if events.len() == 0 {
        t
    } else {
        next(after_all(t, events.drop_last()), events.last())
    }
}

impl TaskState {
    /// The state of a task that starts on a configured channel.
    pub fn new(config: &ChannelConfig) -> (r: TaskState)
        ensures
            r.channel_id == config.id,
            r.backoff.consecutive_failures == config.consecutive_failures,
            r.last_status@ == status::status_after(
                config.consecutive_failures as nat,
                message::optional_text(config.last_error),
            ),
            r.last_sync_at == config.last_sync_at,
            r.awaiting is None,
    {
        let backoff = BackoffState { consecutive_failures: config.consecutive_failures };
        let last_status = match &config.last_error {
            Some(e) => backoff.status(Some(e.as_str())),
            None => backoff.status(None),
        };
        TaskState {
            channel_id: config.id,
            backoff,
            last_status,
            last_sync_at: config.last_sync_at,
            awaiting: None,
        }
    }

    /// Where the status has changed, has it stored and published.
    fn publish_status_if_changed(
        &mut self,
        last_error: Option<&str>,
        actions: &mut Vec<TaskAction>,
    )
        ensures
            ({
                let new = status::status_after(
                    old(self).backoff.consecutive_failures as nat,
                    match last_error {
                        Some(e) => Some(e@),
                        None => None,
                    },
                );
                &&& action_texts(final(actions)@) == action_texts(old(actions)@)
                    + status_actions(
                    old(self).channel_id,
                    old(self).last_status@,
                    new,
                    old(self).backoff.consecutive_failures as nat,
                )
                &&& final(self).last_status@ == new
            }),
            final(self).channel_id == old(self).channel_id,
            final(self).backoff == old(self).backoff,
            final(self).last_sync_at == old(self).last_sync_at,
            final(self).awaiting == old(self).awaiting,
    {
        let ghost before = action_texts(actions@);
        let new = self.backoff.status(last_error);
        if !new.same(&self.last_status) {
            actions.push(
                TaskAction::PersistStatus {
                    status: new.copy(),
                    consecutive_failures: self.backoff.consecutive_failures,
                },
            );
            actions.push(
                TaskAction::Publish {
                    event: RuntimeEvent::ChannelStatusChanged {
                        channel_id: self.channel_id,
                        status: new.copy(),
                    },
                },
            );
            proof {
                assert(action_texts(actions@) =~= before + status_actions(
                    self.channel_id,
                    self.last_status@,
                    new@,
                    self.backoff.consecutive_failures as nat,
                ));
            }
            self.last_status = new;
        } else {
            proof {
                assert(action_texts(actions@) =~= before + status_actions(
                    self.channel_id,
                    self.last_status@,
                    new@,
                    self.backoff.consecutive_failures as nat,
                ));
            }
        }
    }

    /// Takes in the batch that a poll brought.
    pub fn on_fetched(&mut self, batch: Vec<RawMessage>) -> (r: Vec<TaskAction>)
        ensures
            action_texts(r@) == asked(old(self)@, TaskEvent::Fetched(batch@)),
            final(self)@ == next(old(self)@, TaskEvent::Fetched(batch@)),
    {
        let mut actions: Vec<TaskAction> = Vec::new();
        match latest_timestamp(&batch) {
            Some(latest) => {
                self.awaiting = Some(HandOver { count: batch.len(), latest });
                let ghost messages = batch@;
                actions.push(
                    TaskAction::HandOn { job: IngestJob { channel_id: self.channel_id, batch } },
                );
                proof {
                    assert(action_texts(actions@) =~= seq![
                        ActionText::HandOn(self.channel_id, messages),
                    ]);
                }
            },
            None => {
                self.awaiting = None;
                self.backoff.record_success();
                proof {
                    assert(action_texts(actions@) =~= Seq::empty());
                }
                self.publish_status_if_changed(None, &mut actions);
            },
        }
        actions
    }

    /// Takes in that the batch was taken, and where the adapter then stood. Does
    /// nothing where no batch was handed on.
    pub fn on_handed_on(&mut self, cursor: Option<String>) -> (r: Vec<TaskAction>)
        ensures
            action_texts(r@) == asked(
                old(self)@,
                TaskEvent::HandedOn(message::optional_text(cursor)),
            ),
            final(self)@ == next(old(self)@, TaskEvent::HandedOn(message::optional_text(cursor))),
    {
        let ghost start = self@;
        let ghost at = message::optional_text(cursor);
        let mut actions: Vec<TaskAction> = Vec::new();
        proof {
            assert(action_texts(actions@) =~= Seq::empty());
        }
        if let Some(h) = self.awaiting.take() {
            actions.push(TaskAction::PersistSync { cursor, synced_at: h.latest });
            self.last_sync_at = Some(h.latest);
            self.backoff.record_success();
            actions.push(
                TaskAction::Publish {
                    event: RuntimeEvent::SyncSucceeded {
                        channel_id: self.channel_id,
                        count: h.count,
                    },
                },
            );
            proof {
                assert(action_texts(actions@) =~= seq![
                    ActionText::PersistSync(at, h.latest@),
                    ActionText::Publish(
                        EventText::SyncSucceeded {
                            channel_id: start.channel_id,
                            count: h.count as nat,
                        },
                    ),
                ]);
            }
            self.publish_status_if_changed(None, &mut actions);
        }
        actions
    }

    /// Takes in that the batch was not taken.
    pub fn on_refused(&mut self) -> (r: Vec<TaskAction>)
        ensures
            action_texts(r@) == asked(old(self)@, TaskEvent::Refused),
            final(self)@ == next(old(self)@, TaskEvent::Refused),
    {
        self.awaiting = None;
        let mut actions: Vec<TaskAction> = Vec::new();
        actions.push(TaskAction::Stop);
        proof {
            assert(action_texts(actions@) =~= seq![ActionText::Stop]);
        }
        actions
    }

    /// Takes in a poll that failed.
    pub fn on_failure(&mut self, error: &str) -> (r: Vec<TaskAction>)
        ensures
            action_texts(r@) == asked(old(self)@, TaskEvent::Failed(error@)),
            final(self)@ == next(old(self)@, TaskEvent::Failed(error@)),
    {
        let mut actions: Vec<TaskAction> = Vec::new();
        self.awaiting = None;
        self.backoff.record_failure();
        actions.push(
            TaskAction::Publish {
                event: RuntimeEvent::SyncFailed {
                    channel_id: self.channel_id,
                    error: error.to_owned(),
                    attempt: self.backoff.consecutive_failures,
                },
            },
        );
        proof {
            assert(action_texts(actions@) =~= seq![
                ActionText::Publish(
                    EventText::SyncFailed {
                        channel_id: self.channel_id,
                        error: error@,
                        attempt: self.backoff.consecutive_failures as nat,
                    },
                ),
            ]);
        }
        self.publish_status_if_changed(Some(error), &mut actions);
        actions
    }
}

// ---------------------------------------------------------------------------
// Laws
// ---------------------------------------------------------------------------

/// The sync state is stored only when a batch has just been handed on and
/// taken: with the cursor at which the adapter stood then, and with the time of
/// the latest message of that batch.
pub proof fn the_sync_state_is_stored_after_the_hand_over(
    start: TaskText,
    events: Seq<TaskEvent>,
    i: int,
    cursor: Option<Seq<char>>,
    synced_at: (int, int),
)
    requires
        start.awaiting is None,
        0 <= i < events.len(),
        asked(after_all(start, events.take(i)), events[i]).contains(
            ActionText::PersistSync(cursor, synced_at),
        ),
    ensures
        events[i] == TaskEvent::HandedOn(cursor),
        i > 0,
        events[i - 1] matches TaskEvent::Fetched(batch) && {
            &&& batch.len() > 0
            &&& raw::latest_of(batch) == Some(synced_at)
            &&& asked(after_all(start, events.take(i - 1)), events[i - 1]) == seq![
                ActionText::HandOn(start.channel_id, batch),
            ]
        },
{
    let t = after_all(start, events.take(i));
    let all = asked(t, events[i]);
    let k = choose|k: int|
        0 <= k < all.len() && all[k] == ActionText::PersistSync(cursor, synced_at);
    assert(events[i] is HandedOn && t.awaiting is Some);
    assert(k == 0);
    assert(events.take(0) =~= Seq::empty());
    let before = events.take(i - 1);
    assert(events.take(i).drop_last() =~= before);
    assert(events.take(i).last() == events[i - 1]);
    lemma_channel_stays(start, before);
    assert(events[i - 1] is Fetched);
    raw::latest_is_the_greatest(events[i - 1]->Fetched_0, 0);
}

/// Until a batch has been taken, messages are fetched from the same time on:
/// what was not handed on is asked for again.
pub proof fn what_was_not_taken_is_asked_for_again(t: TaskText, e: TaskEvent)
    requires
        !(e is HandedOn),
    ensures
        next(t, e).last_sync_at == t.last_sync_at,
{
}

/// A task keeps to its channel.
proof fn lemma_channel_stays(start: TaskText, events: Seq<TaskEvent>)
    ensures
        after_all(start, events).channel_id == start.channel_id,
    decreases events.len(),
{
    if events.len() > 0 {
        lemma_channel_stays(start, events.drop_last());
    }
}

/// A status is made known only when it changes: after a success a healthy
/// channel has nothing to make known, and one that was not healthy is made
/// known as healthy.
pub proof fn recovery_is_made_known_once(t: TaskText, e: TaskEvent)
    requires
        e matches TaskEvent::Fetched(batch) && batch.len() == 0 || e is HandedOn
            && t.awaiting is Some,
    ensures
        t.last_status == StatusText::Healthy ==> forall|i: int|
            0 <= i < asked(t, e).len() ==> !(#[trigger] asked(t, e)[i] is PersistStatus),
        t.last_status != StatusText::Healthy ==> asked(t, e).contains(
            ActionText::PersistStatus(StatusText::Healthy, 0),
        ),
{
    let all = asked(t, e);
    if t.last_status != StatusText::Healthy {
        assert(all[all.len() - 2] == ActionText::PersistStatus(StatusText::Healthy, 0));
    }
}

/// The status after each of a row of failures: degraded for the first three,
/// failed from the fourth on.
pub proof fn failures_escalate(failures: nat, error: Seq<char>)
    requires
        failures > 0,
    ensures
        failures <= 3 <==> status::status_after(failures, Some(error)) is Degraded,
        failures > 3 <==> status::status_after(failures, Some(error)) == StatusText::Failed(
            error,
        ),
{
}

} // verus!
