//! Bookkeeping of the encoder workers: the pool of free data ports, the
//! active workers keyed by their port, and when the audio pipeline has to run.
//!
//! The outside work (starting and stopping the capture pipeline, subscribing
//! a worker to the frame broadcast, spawning, signalling and joining worker
//! threads) is done by the caller: through the closures it hands in, for the
//! steps whose contracts admit exactly when they run, or after a step returns
//! and says what is due. The state and every decision stay here.
use crate::protocol::StreamStats;
use rand::seq::IteratorRandom;
use vstd::prelude::*;

verus! {

/// Data ports are drawn from 49152 up to, not including, 65535.
pub const PORT_RANGE_START: u16 = 49152;

/// End (exclusive) of the data-port range.
pub const PORT_RANGE_END: u16 = 65535;

/// Number of ports in the range.
pub open spec fn port_range_len() -> int {
    PORT_RANGE_END - PORT_RANGE_START
}

/// `max_ports` distinct ports from `start` up to, not including, `end`, drawn at
/// random (`IteratorRandom::choose_multiple` over the range, with the
/// thread-local generator); all of them when the range has fewer. Which ports,
/// and their order, is left open.
#[verifier::external_body]
fn choose_ports(start: u16, end: u16, max_ports: usize) -> (r: Vec<u16>)
    requires
        start <= end,
    ensures
        r@.len() == vstd::math::min(max_ports as int, end - start),
        forall|i: int| 0 <= i < r@.len() ==> start <= #[trigger] r@[i] < end,
        r@.no_duplicates(),
{
    (start..end).choose_multiple(&mut rand::rng(), max_ports)
}

/// Why a manager operation failed. `E` is the error of the audio pipeline.
#[derive(Debug)]
pub enum RegistryError<E> {
    /// Starting the pipeline or subscribing to it failed.
    AudioPipelineError(E),
    /// The port pool is empty: the server is at capacity.
    PortIssueError(),
    /// No active worker has this port.
    NoSuchWorkerError(u16),
}

/// The ports of a list of (port, handle) entries.
pub open spec fn ports_of<H>(entries: Seq<(u16, H)>) -> Seq<u16> {
    entries.map_values(|e: (u16, H)| e.0)
}

/// The active ports after registering `port`: a port already active keeps its
/// place (its handle is replaced), a new one is appended.
pub open spec fn ports_after_register(active: Seq<u16>, port: u16) -> Seq<u16> {
    if active.contains(port) {
        active
    } else {
        active.push(port)
    }
}

/// No port is both free and active, and neither list repeats a port.
pub open spec fn ports_disjoint(pool: Seq<u16>, active: Seq<u16>) -> bool {
    &&& pool.no_duplicates()
    &&& active.no_duplicates()
    &&& forall|p: u16| !(pool.contains(p) && active.contains(p))
}

/// The free ports and the active workers, with a handle `H` per worker.
///
/// `wf` holds in every state. The stronger `ports_apart` (no port both free and
/// active, none repeated) holds from `new` on and every operation keeps it, with
/// one exception that the manager really meets: `clean_up` of an id that is
/// already free (a worker reporting a failure after it was stopped) puts that
/// port in the pool twice, and it can then be issued twice. Each operation's
/// contract says when it keeps `ports_apart`.
pub struct WorkerRegistry<H> {
    ports_pool: Vec<u16>,
    active: Vec<(u16, H)>,
}

impl<H> WorkerRegistry<H> {
    /// The free ports; the next one issued is the last.
    pub closed spec fn pool(&self) -> Seq<u16> {
        self.ports_pool@
    }

    /// The active workers: their ports and handles, in registration order.
    pub closed spec fn entries(&self) -> Seq<(u16, H)> {
        self.active@
    }

    /// The ports of the active workers.
    pub open spec fn active(&self) -> Seq<u16> {
        ports_of(self.entries())
    }

    /// Each active port has one entry.
    pub open spec fn wf(&self) -> bool {
        self.active().no_duplicates()
    }

    /// No port is both free and active, and neither the pool nor the active
    /// workers hold a port twice.
    pub open spec fn ports_apart(&self) -> bool {
        ports_disjoint(self.pool(), self.active())
    }

    /// A registry with the given free ports and no active worker.
    pub fn with_ports(ports: Vec<u16>) -> (r: Self)
        ensures
            r.wf(),
            r.pool() == ports@,
            r.entries() == Seq::<(u16, H)>::empty(),
            ports@.no_duplicates() ==> r.ports_apart(),
    {
        let r = WorkerRegistry { ports_pool: ports, active: Vec::new() };
        assert(r.active() =~= Seq::<u16>::empty());
        r
    }

    /// A registry with `max_ports` free ports (all of the range if it has fewer)
    /// drawn at random from the data-port range, and no active worker.
    pub fn new(max_ports: usize) -> (r: Self)
        ensures
            r.wf(),
            r.ports_apart(),
            r.entries() == Seq::<(u16, H)>::empty(),
            r.pool().len() == vstd::math::min(max_ports as int, port_range_len()),
            r.pool().no_duplicates(),
            forall|i: int|
                0 <= i < r.pool().len() ==> PORT_RANGE_START <= #[trigger] r.pool()[i]
                    < PORT_RANGE_END,
    {
        let range_len = (PORT_RANGE_END - PORT_RANGE_START) as usize;
        let amount = if max_ports < range_len {
            max_ports
        } else {
            range_len
        };
        Self::with_ports(choose_ports(PORT_RANGE_START, PORT_RANGE_END, amount))
    }

    /// Position of the entry of `port`, if it is active.
    fn find(&self, port: u16) -> (r: Option<usize>)
        ensures
            match r {
                Some(i) => i < self.entries().len() && self.entries()[i as int].0 == port,
                None => !self.active().contains(port),
            },
    {
        let mut i: usize = 0;
        while i < self.active.len()
            invariant
                i <= self.active@.len(),
                forall|k: int| 0 <= k < i ==> self.active@[k].0 != port,
            decreases self.active@.len() - i,
        {
            if self.active[i].0 == port {
                return Some(i);
            }
            i = i + 1;
        }
        proof {
            if self.active().contains(port) {
                let k = choose|k: int| 0 <= k < self.active().len() && self.active()[k] == port;
                assert(self.active@[k].0 == port);
            }
        }
        None
    }

    /// Whether any worker is active.
    pub fn has_active_workers(&self) -> (r: bool)
        ensures
            r == (self.active().len() > 0),
    {
        self.active.len() > 0
    }

    /// The ports of the active workers.
    pub fn active_ports(&self) -> (r: Vec<u16>)
        ensures
            r@ == self.active(),
    {
        let mut r: Vec<u16> = Vec::new();
        let mut i: usize = 0;
        while i < self.active.len()
            invariant
                i <= self.active@.len(),
                r@ == ports_of(self.active@.take(i as int)),
            decreases self.active@.len() - i,
        {
            r.push(self.active[i].0);
            assert(ports_of(self.active@.take(i + 1)) =~= ports_of(self.active@.take(i as int)).push(
                self.active@[i as int].0,
            ));
            i = i + 1;
        }
        assert(self.active@.take(self.active@.len() as int) =~= self.active@);
        r
    }

    /// Records `handle` as the worker of `port`; the handle it replaces, if any,
    /// is dropped.
    fn register(&mut self, port: u16, handle: H)
        requires
            old(self).wf(),
        ensures
            final(self).wf(),
            final(self).pool() == old(self).pool(),
            final(self).active() == ports_after_register(old(self).active(), port),
            final(self).entries().contains((port, handle)),
    {
        match self.find(port) {
            Some(i) => {
                let ghost old_active = self.active();
                assert(old_active[i as int] == port);
                let _replaced = self.active.remove(i);
                let ghost g = handle;
                self.active.insert(i, (port, handle));
                assert(self.active() =~= old_active);
                assert(self.active@[i as int] == (port, g));
            },
            None => {
                let ghost old_active = self.active();
                let ghost g = handle;
                self.active.push((port, handle));
                assert(self.active() =~= old_active.push(port));
                assert(self.active@[self.active@.len() - 1] == (port, g));
            },
        }
    }

    /// Issues a new worker and returns its port. When no worker is active the
    /// pipeline is started first (`start_pipeline`); then the last free port is
    /// taken, the worker is subscribed to the frames on it (`subscribe`), its
    /// thread is spawned (`spawn`, given the port and what the subscription
    /// handed back) and its handle recorded.
    ///
    /// The `requires` admits only these calls: `start_pipeline` only when no
    /// worker is active, `subscribe` and `spawn` only on the port being issued,
    /// so none of them runs when its step is not reached. A failed start leaves
    /// everything as it was; an empty pool fails after the start; a failed
    /// subscription fails with the port already taken out of the pool.
    pub fn issue_new_worker<E, R, FStart, FSub, FSpawn>(
        &mut self,
        start_pipeline: FStart,
        subscribe: FSub,
        spawn: FSpawn,
    ) -> (r: Result<u16, RegistryError<E>>) where
        FStart: FnOnce() -> Result<(), E>,
        FSub: FnOnce(u16) -> Result<R, E>,
        FSpawn: FnOnce(u16, R) -> H,

        requires
            old(self).wf(),
            old(self).active().len() == 0 ==> start_pipeline.requires(()),
            old(self).pool().len() > 0 ==> subscribe.requires((old(self).pool().last(),)),
            forall|frames: R|
                old(self).pool().len() > 0 ==> #[trigger] spawn.requires(
                    (old(self).pool().last(), frames),
                ),
        ensures
            final(self).wf(),
            old(self).ports_apart() ==> final(self).ports_apart(),
            r is Ok ==> {
                &&& old(self).pool().len() > 0
                &&& r->Ok_0 == old(self).pool().last()
                &&& final(self).pool() == old(self).pool().drop_last()
                &&& final(self).active() == ports_after_register(old(self).active(), r->Ok_0)
            },
            r is Ok && old(self).active().len() == 0 ==> start_pipeline.ensures(
                (),
                Ok::<(), E>(()),
            ),
            r is Ok ==> exists|frames: R, h: H|
                #![trigger spawn.ensures((r->Ok_0, frames), h)]
                {
                    &&& subscribe.ensures((r->Ok_0,), Ok::<R, E>(frames))
                    &&& spawn.ensures((r->Ok_0, frames), h)
                    &&& final(self).entries().contains((r->Ok_0, h))
                },
            r matches Err(RegistryError::PortIssueError()) ==> {
                &&& old(self).pool().len() == 0
                &&& old(self).active().len() == 0 ==> start_pipeline.ensures((), Ok::<(), E>(()))
                &&& final(self).pool() == old(self).pool()
                &&& final(self).entries() == old(self).entries()
            },
            r matches Err(RegistryError::AudioPipelineError(e)) ==> {
                &&& final(self).entries() == old(self).entries()
                &&& {
                    ||| {
                        &&& old(self).active().len() == 0
                        &&& start_pipeline.ensures((), Err::<(), E>(e))
                        &&& final(self).pool() == old(self).pool()
                    }
                    ||| {
                        &&& old(self).pool().len() > 0
                        &&& subscribe.ensures((old(self).pool().last(),), Err::<R, E>(e))
                        &&& final(self).pool() == old(self).pool().drop_last()
                    }
                }
            },
            !(r matches Err(RegistryError::NoSuchWorkerError(_))),
            old(self).pool().len() == 0 ==> r is Err,
            ({
                &&& old(self).pool().len() > 0
                &&& (old(self).active().len() > 0 || forall|res: Result<(), E>|
                    start_pipeline.ensures((), res) ==> res is Ok)
                &&& forall|res: Result<R, E>|
                    subscribe.ensures((old(self).pool().last(),), res) ==> res is Ok
            }) ==> r is Ok,
    {
        let ghost old_pool = self.pool();
        let ghost old_active = self.active();
        proof {
            if ports_disjoint(old_pool, old_active) && old_pool.len() > 0 {
                lemma_issue_hands_out_a_free_port(old_pool, old_active);
            }
        }
        if !self.has_active_workers() {
            let started = start_pipeline();
            let ghost g_started = started;
            match started {
                Ok(u) => {
                    assert(g_started == Ok::<(), E>(u));
                },
                Err(e) => {
                    return Err(RegistryError::AudioPipelineError(e));
                },
            }
        }
        let port = match self.ports_pool.pop() {
            Some(p) => p,
            None => {
                return Err(RegistryError::PortIssueError());
            },
        };
        assert(port == old(self).pool().last());
        let subscribed = subscribe(port);
        let ghost g_sub = subscribed;
        let frames = match subscribed {
            Ok(frames) => {
                assert(g_sub == Ok::<R, E>(frames));
                frames
            },
            Err(e) => {
                return Err(RegistryError::AudioPipelineError(e));
            },
        };
        let ghost g_frames = frames;
        let handle = spawn(port, frames);
        let ghost g_handle = handle;
        self.register(port, handle);
        let r: Result<u16, RegistryError<E>> = Ok(port);
        assert(spawn.ensures((r->Ok_0, g_frames), g_handle));
        r
    }

    /// First half of stopping the worker of `port`: takes its entry out and hands
    /// back its handle, for the caller to signal and join.
    pub fn begin_stop<E>(&mut self, port: u16) -> (r: Result<H, RegistryError<E>>)
        requires
            old(self).wf(),
        ensures
            final(self).wf(),
            old(self).ports_apart() ==> final(self).ports_apart(),
            final(self).pool() == old(self).pool(),
            !final(self).active().contains(port),
            old(self).active().contains(port) <==> r is Ok,
            r matches Ok(h) ==> exists|i: int|
                0 <= i < old(self).entries().len() && old(self).entries()[i] == (port, h)
                    && final(self).entries() == old(self).entries().remove(i),
            r matches Err(err) ==> err == RegistryError::<E>::NoSuchWorkerError(port)
                && final(self).entries() == old(self).entries(),
    {
        match self.find(port) {
            Some(i) => {
                let ghost old_entries = self.active@;
                assert(self.active()[i as int] == port);
                let (_, handle) = self.active.remove(i);
                proof {
                    lemma_remove_keeps_distinct(old_entries, i as int);
                    lemma_remove_drops_port(old_entries, i as int);
                    if ports_disjoint(self.ports_pool@, ports_of(old_entries)) {
                        lemma_remove_keeps_apart(self.ports_pool@, old_entries, i as int);
                    }
                }
                Ok(handle)
            },
            None => Err(RegistryError::NoSuchWorkerError(port)),
        }
    }

    /// Second half of stopping the worker of `port`, once its thread has been
    /// joined: the port goes back to the pool and the worker is unsubscribed from
    /// the frames; returns whether no worker is left, in which case the caller
    /// stops the pipeline.
    pub fn finish_stop<FUnsub>(&mut self, port: u16, unsubscribe: FUnsub) -> (stop_pipeline: bool) where
        FUnsub: FnOnce(u16),

        requires
            old(self).wf(),
            unsubscribe.requires((port,)),
        ensures
            final(self).wf(),
            old(self).ports_apart() && !old(self).pool().contains(port)
                && !old(self).active().contains(port) ==> final(self).ports_apart(),
            final(self).pool() == old(self).pool().push(port),
            final(self).entries() == old(self).entries(),
            unsubscribe.ensures((port,), ()),
            stop_pipeline == (final(self).active().len() == 0),
    {
        proof {
            if self.ports_apart() && !self.pool().contains(port) && !self.active().contains(port) {
                lemma_pool_push_keeps_apart(self.pool(), self.active(), port);
            }
        }
        self.ports_pool.push(port);
        unsubscribe(port);
        !self.has_active_workers()
    }

    /// Cleans up after a worker that stopped on its own: its entry, if any, is
    /// taken out and its stop signal set (`signal_stop`, which is given the
    /// handle); `id` goes back to the pool in any case and the worker is
    /// unsubscribed from the frames (`unsubscribe`). Returns whether no worker is
    /// left, in which case the caller stops the pipeline.
    ///
    /// A worker can report a failure after it was already stopped and its port
    /// returned; `id` is then put in the pool a second time.
    pub fn clean_up<FSignal, FUnsub>(
        &mut self,
        id: u16,
        signal_stop: FSignal,
        unsubscribe: FUnsub,
    ) -> (stop_pipeline: bool) where
        FSignal: FnOnce(H),
        FUnsub: FnOnce(u16),

        requires
            old(self).wf(),
            forall|h: H| #[trigger] signal_stop.requires((h,)),
            unsubscribe.requires((id,)),
        ensures
            final(self).wf(),
            old(self).ports_apart() && !old(self).pool().contains(id)
                ==> final(self).ports_apart(),
            final(self).pool() == old(self).pool().push(id),
            !final(self).active().contains(id),
            unsubscribe.ensures((id,), ()),
            old(self).active().contains(id) ==> exists|i: int|
                0 <= i < old(self).entries().len() && old(self).entries()[i].0 == id
                    && final(self).entries() == old(self).entries().remove(i)
                    && #[trigger] signal_stop.ensures((old(self).entries()[i].1,), ()),
            !old(self).active().contains(id) ==> final(self).entries() == old(self).entries(),
            stop_pipeline == (final(self).active().len() == 0),
    {
        let ghost old_entries = self.active@;
        let ghost old_pool = self.ports_pool@;
        match self.find(id) {
            Some(i) => {
                assert(self.active()[i as int] == id);
                let (_, handle) = self.active.remove(i);
                proof {
                    lemma_remove_keeps_distinct(old_entries, i as int);
                    lemma_remove_drops_port(old_entries, i as int);
                    if ports_disjoint(old_pool, ports_of(old_entries)) {
                        lemma_stop_gives_the_port_back(old_pool, old_entries, i as int);
                    }
                }
                let ghost g_handle = handle;
                signal_stop(handle);
                assert(signal_stop.ensures((old_entries[i as int].1,), ()));
                assert(old_entries[i as int].0 == id);
            },
            None => {
                proof {
                    if ports_disjoint(old_pool, ports_of(old_entries)) && !old_pool.contains(id) {
                        lemma_pool_push_keeps_apart(old_pool, ports_of(old_entries), id);
                    }
                }
            },
        };
        self.ports_pool.push(id);
        unsubscribe(id);
        !self.has_active_workers()
    }

    /// Takes every active worker out (to shut them all down) and hands back their
    /// handles, in registration order; the pool is left as it is.
    pub fn take_all(&mut self) -> (r: Vec<H>)
        requires
            old(self).wf(),
        ensures
            final(self).wf(),
            old(self).ports_apart() ==> final(self).ports_apart(),
            final(self).pool() == old(self).pool(),
            final(self).entries() == Seq::<(u16, H)>::empty(),
            r@ == old(self).entries().map_values(|e: (u16, H)| e.1),
    {
        let mut handles: Vec<H> = Vec::new();
        let mut taken: Vec<(u16, H)> = Vec::new();
        std::mem::swap(&mut taken, &mut self.active);
        let ghost all = taken@;
        let n = taken.len();
        let mut i: usize = 0;
        while i < n
            invariant
                n == all.len(),
                i <= n,
                taken@ == all.skip(i as int),
                handles@ == all.take(i as int).map_values(|e: (u16, H)| e.1),
            decreases n - i,
        {
            let (_, h) = taken.remove(0);
            handles.push(h);
            assert(all.take(i + 1).map_values(|e: (u16, H)| e.1) =~= all.take(i as int).map_values(
                |e: (u16, H)| e.1,
            ).push(all[i as int].1));
            assert(all.skip(i as int).remove(0) =~= all.skip(i + 1));
            i = i + 1;
        }
        assert(all.take(n as int) =~= all);
        assert(self.active() =~= Seq::<u16>::empty());
        handles
    }

    /// Counters of the stream on `port`. Not tracked yet: every port reports the
    /// same placeholder figures.
    pub fn get_stats(&self, _port: u16) -> (r: (u16, StreamStats))
        ensures
            r == (42069u16, StreamStats { frames_sent: 42, frames_dropped: 69, connected_duration_secs: 420 }),
    {
        (42069, StreamStats { frames_sent: 42, frames_dropped: 69, connected_duration_secs: 420 })
    }
}

/// Removing an entry keeps the other ports distinct.
proof fn lemma_remove_keeps_distinct<H>(entries: Seq<(u16, H)>, i: int)
    requires
        0 <= i < entries.len(),
        ports_of(entries).no_duplicates(),
    ensures
        ports_of(entries.remove(i)) == ports_of(entries).remove(i),
        ports_of(entries.remove(i)).no_duplicates(),
{
    assert(ports_of(entries.remove(i)) =~= ports_of(entries).remove(i));
}

/// Removing the entry of a port that has one entry leaves that port inactive.
proof fn lemma_remove_drops_port<H>(entries: Seq<(u16, H)>, i: int)
    requires
        0 <= i < entries.len(),
        ports_of(entries).no_duplicates(),
    ensures
        !ports_of(entries.remove(i)).contains(entries[i].0),
{
    lemma_remove_keeps_distinct(entries, i);
    let ps = ports_of(entries);
    if ports_of(entries.remove(i)).contains(entries[i].0) {
        let k = choose|k: int|
            0 <= k < ps.remove(i).len() && ps.remove(i)[k] == entries[i].0;
        if k < i {
            assert(ps[k] == ps[i]);
        } else {
            assert(ps[k + 1] == ps[i]);
        }
    }
}

/// The ports the manager knows of: free or active.
pub open spec fn known_ports(pool: Seq<u16>, active: Seq<u16>) -> Set<u16> {
    pool.to_set().union(active.to_set())
}

/// Issuing a worker hands out a port that is free and not already active: from a
/// state where no port is both free and active, `issue_new_worker` moves the
/// issued port (the last free one) from the pool to the active
/// workers, the state stays disjoint and no port is gained or lost. When the
/// subscription fails after the port was taken, the state stays disjoint too
/// (the port is dropped).
pub proof fn lemma_issue_hands_out_a_free_port(pool: Seq<u16>, active: Seq<u16>)
    requires
        ports_disjoint(pool, active),
        pool.len() > 0,
    ensures
        !active.contains(pool.last()),
        ports_after_register(active, pool.last()) == active.push(pool.last()),
        ports_disjoint(pool.drop_last(), active.push(pool.last())),
        known_ports(pool.drop_last(), active.push(pool.last())) == known_ports(pool, active),
        ports_disjoint(pool.drop_last(), active),
{
    let p = pool.last();
    assert(pool.contains(p));
    let pool2 = pool.drop_last();
    let active2 = active.push(p);
    assert forall|q: u16| pool2.contains(q) implies q != p && pool.contains(q) by {
        let k = choose|k: int| 0 <= k < pool2.len() && pool2[k] == q;
        assert(pool[k] == q);
        assert(k != pool.len() - 1);
    }
    assert forall|q: u16| active2.contains(q) implies active.contains(q) || q == p by {
        let k = choose|k: int| 0 <= k < active2.len() && active2[k] == q;
        if k < active.len() {
            assert(active[k] == q);
        }
    }
    assert forall|q: u16| active.contains(q) implies active2.contains(q) by {
        let k = choose|k: int| 0 <= k < active.len() && active[k] == q;
        assert(active2[k] == q);
    }
    assert forall|q: u16| pool.contains(q) && q != p implies pool2.contains(q) by {
        let k = choose|k: int| 0 <= k < pool.len() && pool[k] == q;
        assert(k != pool.len() - 1);
        assert(pool2[k] == q);
    }
    assert(active2[active.len() as int] == p);
    assert(known_ports(pool2, active2) =~= known_ports(pool, active));
}

/// Stopping a worker gives its port back: from a disjoint state, taking out the
/// entry at `i` and returning its port to the pool keeps the state disjoint and
/// neither gains nor loses a port.
pub proof fn lemma_stop_gives_the_port_back<H>(pool: Seq<u16>, entries: Seq<(u16, H)>, i: int)
    requires
        ports_disjoint(pool, ports_of(entries)),
        0 <= i < entries.len(),
    ensures
        ports_disjoint(pool.push(entries[i].0), ports_of(entries.remove(i))),
        known_ports(pool.push(entries[i].0), ports_of(entries.remove(i))) == known_ports(
            pool,
            ports_of(entries),
        ),
{
    let p = entries[i].0;
    let active = ports_of(entries);
    lemma_remove_keeps_distinct(entries, i);
    lemma_remove_drops_port(entries, i);
    let active2 = ports_of(entries.remove(i));
    let pool2 = pool.push(p);
    assert(active[i] == p);
    assert(active.contains(p));
    assert forall|q: u16| active2.contains(q) implies active.contains(q) by {
        let k = choose|k: int| 0 <= k < active2.len() && active2[k] == q;
        if k < i {
            assert(active[k] == q);
        } else {
            assert(active[k + 1] == q);
        }
    }
    assert forall|q: u16| active.contains(q) && q != p implies active2.contains(q) by {
        let k = choose|k: int| 0 <= k < active.len() && active[k] == q;
        if k < i {
            assert(active2[k] == q);
        } else {
            assert(k != i);
            assert(active2[k - 1] == q);
        }
    }
    assert forall|q: u16| pool2.contains(q) implies pool.contains(q) || q == p by {
        let k = choose|k: int| 0 <= k < pool2.len() && pool2[k] == q;
        if k < pool.len() {
            assert(pool[k] == q);
        }
    }
    assert forall|q: u16| pool.contains(q) implies pool2.contains(q) by {
        let k = choose|k: int| 0 <= k < pool.len() && pool[k] == q;
        assert(pool2[k] == q);
    }
    assert(pool2[pool.len() as int] == p);
    assert(!pool.contains(p));
    assert(pool2.no_duplicates());
    assert(known_ports(pool2, active2) =~= known_ports(pool, active));
}

/// Putting a port that is neither free nor active in the pool keeps the ports
/// apart.
proof fn lemma_pool_push_keeps_apart(pool: Seq<u16>, active: Seq<u16>, id: u16)
    requires
        ports_disjoint(pool, active),
        !pool.contains(id),
        !active.contains(id),
    ensures
        ports_disjoint(pool.push(id), active),
{
    let pool2 = pool.push(id);
    assert forall|q: u16| pool2.contains(q) implies pool.contains(q) || q == id by {
        let k = choose|k: int| 0 <= k < pool2.len() && pool2[k] == q;
        if k < pool.len() {
            assert(pool[k] == q);
        }
    }
    assert(pool2.no_duplicates());
}

/// Taking an entry out keeps the ports apart.
proof fn lemma_remove_keeps_apart<H>(pool: Seq<u16>, entries: Seq<(u16, H)>, i: int)
    requires
        ports_disjoint(pool, ports_of(entries)),
        0 <= i < entries.len(),
    ensures
        ports_disjoint(pool, ports_of(entries.remove(i))),
{
    lemma_remove_keeps_distinct(entries, i);
    let active = ports_of(entries);
    let active2 = ports_of(entries.remove(i));
    assert forall|q: u16| active2.contains(q) implies active.contains(q) by {
        let k = choose|k: int| 0 <= k < active2.len() && active2[k] == q;
        if k < i {
            assert(active[k] == q);
        } else {
            assert(active[k + 1] == q);
        }
    }
}

} // verus!
