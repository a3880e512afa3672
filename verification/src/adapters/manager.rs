//! Many adapters side by side, each with a loop that fetches.
use vstd::prelude::*;

use crate::adapters::raw;
use crate::adapters::raw::{latest_timestamp, RawMessage};
use crate::error::CoreError;
use crate::id;
use crate::id::Uuid;
use crate::id_map;
use crate::id_map::IdMap;
use crate::store::sql;
use crate::store::sql::not_found;
use crate::time::Timestamp;
use crate::types::{Channel, ChannelConfig};

verus! {

/// The adapters `A` of the channels, and the handles `H` of the loops that
/// fetch, all under the identifier of the channel.
pub struct AdapterManager<A, H> {
    adapters: IdMap<A>,
    configs: IdMap<ChannelConfig>,
    sync_handles: IdMap<H>,
}

/// What is to be done to fetch from a channel.
#[derive(Debug)]
pub enum SyncPlan {
    /// The channel is disabled.
    Skip,
    /// Fetch, at first what came after `since`, and then wait before the next.
    Start { channel: Channel, poll_interval_secs: u64, since: Option<Timestamp> },
}

/// What is left to do for a channel that is given up.
pub struct Released<A, H> {
    /// The loop to be stopped.
    pub handle: Option<H>,
    /// The adapter to be disconnected.
    pub adapter: Option<A>,
}

/// `b` and `a` hold the same under every identifier but `id`.
pub open spec fn same_but<V>(a: Seq<(Uuid, V)>, b: Seq<(Uuid, V)>, id: Uuid) -> bool {
    forall|other: Uuid|
        other != id ==> #[trigger] id_map::under(a, other) == id_map::under(b, other)
}

impl<A, H> AdapterManager<A, H> {
    /// The adapters, under the identifiers of their channels.
    pub closed spec fn adapters(&self) -> Seq<(Uuid, A)> {
        self.adapters@
    }

    /// The configurations, under the identifiers of their channels.
    pub closed spec fn configs(&self) -> Seq<(Uuid, ChannelConfig)> {
        self.configs@
    }

    /// The handles of the loops, under the identifiers of their channels.
    pub closed spec fn sync_handles(&self) -> Seq<(Uuid, H)> {
        self.sync_handles@
    }

    /// Every loop has an adapter, and every adapter a configuration.
    pub open spec fn well_formed(&self) -> bool {
        &&& forall|i: Uuid| #[trigger]
            id_map::under(self.sync_handles(), i) is Some ==> id_map::under(
                self.adapters(),
                i,
            ) is Some
        &&& forall|i: Uuid| #[trigger]
            id_map::under(self.adapters(), i) is Some ==> id_map::under(self.configs(), i) is Some
    }

    #[verifier::type_invariant]
    spec fn parts_belong_together(self) -> bool {
        self.well_formed()
    }

    /// A manager without adapters.
    pub fn new() -> (r: AdapterManager<A, H>)
        ensures
            r.well_formed(),
            r.adapters().len() == 0,
            r.configs().len() == 0,
            r.sync_handles().len() == 0,
    {
        AdapterManager { adapters: IdMap::new(), configs: IdMap::new(), sync_handles: IdMap::new() }
    }

    /// All that the manager holds, out of it.
    fn take(&mut self) -> (r: AdapterManager<A, H>)
        ensures
            r == *old(self),
            r.well_formed(),
    {
        proof {
            use_type_invariant(&*self);
        }
        let mut taken = AdapterManager::new();
        std::mem::swap(self, &mut taken);
        taken
    }

    /// Takes in an adapter that has been connected for a channel; an adapter
    /// that could not be connected is not taken in.
    pub fn register(&mut self, connected: Result<A, CoreError>, config: ChannelConfig) -> (r: Result<
        Uuid,
        CoreError,
    >)
        ensures
            final(self).well_formed(),
            final(self).sync_handles() == old(self).sync_handles(),
            match connected {
                Ok(adapter) => {
                    &&& r == Ok::<Uuid, CoreError>(config.id)
                    &&& id_map::under(final(self).adapters(), config.id) == Some(adapter)
                    &&& id_map::under(final(self).configs(), config.id) == Some(config)
                    &&& same_but(final(self).adapters(), old(self).adapters(), config.id)
                    &&& same_but(final(self).configs(), old(self).configs(), config.id)
                    &&& final(self).configs().len() == old(self).configs().len() + if id_map::under(
                        old(self).configs(),
                        config.id,
                    ) is Some {
                        0int
                    } else {
                        1
                    }
                },
                Err(e) => {
                    &&& r == Err::<Uuid, CoreError>(e)
                    &&& final(self).adapters() == old(self).adapters()
                    &&& final(self).configs() == old(self).configs()
                },
            },
    {
        proof {
            use_type_invariant(&*self);
        }
        let id = config.id;
        match connected {
            Ok(adapter) => {
                let AdapterManager { mut adapters, mut configs, sync_handles } = self.take();
                adapters.insert(id, adapter);
                configs.insert(id, config);
                *self = AdapterManager { adapters, configs, sync_handles };
                Ok(id)
            },
            Err(e) => Err(e),
        }
    }

    /// What is to be done to fetch from a channel.
    pub fn start_sync(&self, config_id: Uuid) -> (r: Result<SyncPlan, CoreError>)
        ensures
            match id_map::under(self.configs(), config_id) {
                None => r is Err && sql::is_not_found(
                    r->Err_0,
                    "ChannelConfig"@,
                    id::uuid_text(config_id),
                ),
                Some(config) => if !config.enabled {
                    r is Ok && r->Ok_0 is Skip
                } else if id_map::under(self.adapters(), config_id) is None {
                    r is Err && sql::is_not_found(
                        r->Err_0,
                        "Adapter"@,
                        id::uuid_text(config_id),
                    )
                } else {
                    r is Ok && r->Ok_0 == (SyncPlan::Start {
                        channel: config.channel,
                        poll_interval_secs: config.poll_interval_secs as u64,
                        since: config.last_sync_at,
                    })
                },
            },
    {
        let config = match self.configs.get(config_id) {
            Some(c) => c,
            None => return Err(not_found("ChannelConfig", config_id.text().as_str())),
        };
        if !config.enabled {
            return Ok(SyncPlan::Skip);
        }
        if self.adapters.get(config_id).is_none() {
            return Err(not_found("Adapter", config_id.text().as_str()));
        }
        Ok(
            SyncPlan::Start {
                channel: config.channel,
                poll_interval_secs: config.poll_interval_secs as u64,
                since: config.last_sync_at,
            },
        )
    }

    /// Keeps the handle of a loop that was started.
    pub fn sync_started(&mut self, config_id: Uuid, handle: H)
        requires
            id_map::under(old(self).adapters(), config_id) is Some,
        ensures
            final(self).well_formed(),
            final(self).adapters() == old(self).adapters(),
            final(self).configs() == old(self).configs(),
            id_map::under(final(self).sync_handles(), config_id) == Some(handle),
            same_but(final(self).sync_handles(), old(self).sync_handles(), config_id),
    {
        let AdapterManager { adapters, configs, mut sync_handles } = self.take();
        sync_handles.insert(config_id, handle);
        *self = AdapterManager { adapters, configs, sync_handles };
    }

    /// Lets go of the loop of a channel, which the caller stops.
    pub fn stop_sync(&mut self, config_id: Uuid) -> (r: Option<H>)
        ensures
            final(self).well_formed(),
            final(self).adapters() == old(self).adapters(),
            final(self).configs() == old(self).configs(),
            r == id_map::under(old(self).sync_handles(), config_id),
            id_map::under(final(self).sync_handles(), config_id) is None,
            same_but(final(self).sync_handles(), old(self).sync_handles(), config_id),
    {
        let AdapterManager { adapters, configs, mut sync_handles } = self.take();
        let handle = sync_handles.remove(config_id);
        *self = AdapterManager { adapters, configs, sync_handles };
        handle
    }

    /// Lets go of the loop and the adapter of a channel, which the caller stops
    /// and disconnects. What came of it goes to `unregistered`.
    pub fn unregister(&mut self, config_id: Uuid) -> (r: Released<A, H>)
        ensures
            final(self).well_formed(),
            final(self).configs() == old(self).configs(),
            r.handle == id_map::under(old(self).sync_handles(), config_id),
            r.adapter == id_map::under(old(self).adapters(), config_id),
            id_map::under(final(self).sync_handles(), config_id) is None,
            id_map::under(final(self).adapters(), config_id) is None,
            same_but(final(self).sync_handles(), old(self).sync_handles(), config_id),
            same_but(final(self).adapters(), old(self).adapters(), config_id),
    {
        let handle = self.stop_sync(config_id);
        let AdapterManager { mut adapters, configs, sync_handles } = self.take();
        let adapter = adapters.remove(config_id);
        *self = AdapterManager { adapters, configs, sync_handles };
        Released { handle, adapter }
    }

    /// Takes away the configuration of a channel whose adapter was let go; it
    /// stays where the adapter could not be disconnected.
    pub fn unregistered(
        &mut self,
        config_id: Uuid,
        disconnected: Result<(), CoreError>,
    ) -> (r: Result<(), CoreError>)
        requires
            id_map::under(old(self).adapters(), config_id) is None,
        ensures
            final(self).well_formed(),
            final(self).adapters() == old(self).adapters(),
            final(self).sync_handles() == old(self).sync_handles(),
            r == disconnected,
            match disconnected {
                Ok(_) => {
                    &&& id_map::under(final(self).configs(), config_id) is None
                    &&& same_but(final(self).configs(), old(self).configs(), config_id)
                    &&& final(self).configs().len() == old(self).configs().len() - if id_map::under(
                        old(self).configs(),
                        config_id,
                    ) is Some {
                        1int
                    } else {
                        0
                    }
                },
                Err(_) => final(self).configs() == old(self).configs(),
            },
    {
        proof {
            use_type_invariant(&*self);
        }
        if disconnected.is_ok() {
            let AdapterManager { adapters, mut configs, sync_handles } = self.take();
            configs.remove(config_id);
            *self = AdapterManager { adapters, configs, sync_handles };
        }
        disconnected
    }

    /// The channels that are given up one by one when the manager shuts down:
    /// those that have an adapter.
    pub fn shutdown(&self) -> (r: Vec<Uuid>)
        ensures
            r@.len() == self.adapters().len(),
            forall|i: int| 0 <= i < r@.len() ==> #[trigger] r@[i] == self.adapters()[i].0,
    {
        self.adapters.ids()
    }

    /// The channels that have been taken in.
    pub fn registered_configs(&self) -> (r: Vec<Uuid>)
        ensures
            r@.len() == self.configs().len(),
            forall|i: int| 0 <= i < r@.len() ==> #[trigger] r@[i] == self.configs()[i].0,
    {
        self.configs.ids()
    }

    /// Whether a channel has a loop that has not come to an end.
    pub fn is_syncing<F: Fn(&H) -> bool>(&self, config_id: Uuid, is_finished: F) -> (r: bool)
        requires
            forall|h: &H| #[trigger] call_requires(is_finished, (h,)),
        ensures
            match id_map::under(self.sync_handles(), config_id) {
                Some(h) => call_ensures(is_finished, (&h,), !r),
                None => !r,
            },
    {
        match self.sync_handles.get(config_id) {
            Some(h) => {
                let finished = is_finished(h);
                !finished
            },
            None => false,
        }
    }

    /// The adapter of a channel.
    pub fn get_adapter(&self, config_id: Uuid) -> (r: Option<&A>)
        ensures
            match r {
                Some(a) => id_map::under(self.adapters(), config_id) == Some(*a),
                None => id_map::under(self.adapters(), config_id) is None,
            },
    {
        self.adapters.get(config_id)
    }
}

/// From when on the next messages are fetched: from the latest of those that
/// came, or as before where none came.
pub fn next_since(since: Option<Timestamp>, messages: &Vec<RawMessage>) -> (r: Option<Timestamp>)
    ensures
        match raw::latest_of(messages@) {
            Some(t) => r is Some && r->0@ == t,
            None => r == since,
        },
{
    match latest_timestamp(messages) {
        Some(t) => Some(t),
        None => since,
    }
}

// ---------------------------------------------------------------------------
// Laws
// ---------------------------------------------------------------------------

/// Every configuration has an adapter.
pub open spec fn complete<A, H>(m: AdapterManager<A, H>) -> bool {
    forall|i: Uuid| #[trigger]
        id_map::under(m.configs(), i) is Some ==> id_map::under(m.adapters(), i) is Some
}

/// `b` is what `unregister`, and then `unregistered` after a disconnection that
/// went well, make of `a`.
pub open spec fn given_up<A, H>(
    a: AdapterManager<A, H>,
    b: AdapterManager<A, H>,
    id: Uuid,
) -> bool {
    &&& b.well_formed()
    &&& id_map::under(b.adapters(), id) is None
    &&& id_map::under(b.configs(), id) is None
    &&& id_map::under(b.sync_handles(), id) is None
    &&& same_but(b.adapters(), a.adapters(), id)
    &&& same_but(b.configs(), a.configs(), id)
    &&& same_but(b.sync_handles(), a.sync_handles(), id)
}

/// What was given up stays given up, and what is left was there before.
proof fn lemma_given_up<A, H>(states: Seq<AdapterManager<A, H>>, ids: Seq<Uuid>, n: int, i: Uuid)
    requires
        states.len() == ids.len() + 1,
        0 <= n <= ids.len(),
        forall|k: int| #![trigger ids[k]]
            0 <= k < ids.len() ==> given_up(states[k], states[k + 1], ids[k]),
        id_map::under(states[n].configs(), i) is Some,
    ensures
        id_map::under(states[0].configs(), i) is Some,
        !ids.take(n).contains(i),
    decreases n,
{
    if n > 0 {
        assert(given_up(states[n - 1], states[n], ids[n - 1]));
        assert(i != ids[n - 1]);
        lemma_given_up(states, ids, n - 1, i);
        assert(ids.take(n) =~= ids.take(n - 1).push(ids[n - 1]));
        assert forall|k: int| 0 <= k < n implies ids.take(n)[k] != i by {
            if k < n - 1 {
                assert(ids.take(n)[k] == ids.take(n - 1)[k]);
            }
        }
    }
}

/// Giving up, one after the other, all channels that `shutdown` names leaves a
/// manager with nothing in it, where every configuration had its adapter.
pub proof fn shutdown_leaves_nothing<A, H>(
    states: Seq<AdapterManager<A, H>>,
    ids: Seq<Uuid>,
)
    requires
        states.len() == ids.len() + 1,
        states[0].well_formed(),
        complete(states[0]),
        ids.len() == states[0].adapters().len(),
        forall|i: int| 0 <= i < ids.len() ==> #[trigger] ids[i] == states[0].adapters()[i].0,
        forall|k: int| #![trigger ids[k]]
            0 <= k < ids.len() ==> given_up(states[k], states[k + 1], ids[k]),
    ensures
        states.last().adapters().len() == 0,
        states.last().configs().len() == 0,
        states.last().sync_handles().len() == 0,
{
    let first = states[0];
    let last = states.last();
    let n = ids.len() as int;
    if n > 0 {
        assert(given_up(states[n - 1], states[n], ids[n - 1]));
    }
    assert(last.well_formed());
    assert(ids.take(n) =~= ids);
    if last.configs().len() > 0 {
        let i = last.configs()[0].0;
        assert(id_map::id_index(last.configs(), i, 0) == 0);
        assert(id_map::under(last.configs(), i) is Some);
        lemma_given_up(states, ids, n, i);
        assert(id_map::under(first.adapters(), i) is Some);
        id_map::lemma_id_index_props(first.adapters(), i, 0);
        let k = id_map::id_index(first.adapters(), i, 0);
        assert(ids[k] == i);
        assert(false);
    }
    if last.adapters().len() > 0 {
        let i = last.adapters()[0].0;
        assert(id_map::id_index(last.adapters(), i, 0) == 0);
        assert(id_map::under(last.adapters(), i) is Some);
        assert(id_map::under(last.configs(), i) is Some);
        assert(false);
    }
    if last.sync_handles().len() > 0 {
        let i = last.sync_handles()[0].0;
        assert(id_map::id_index(last.sync_handles(), i, 0) == 0);
        assert(id_map::under(last.sync_handles(), i) is Some);
        assert(id_map::under(last.adapters(), i) is Some);
        assert(false);
    }
}

} // verus!
