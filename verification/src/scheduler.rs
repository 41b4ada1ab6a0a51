//! The cooperative event-loop driver.
//!
//! The host activates the guest repeatedly through a single entry point; the
//! guest never runs on its own. One activation performs one scheduling
//! round: advance every previously spawned unit of work by exactly one step,
//! handle at most one pending host envelope, and yield. [`App`] is the
//! decision core of that round. It owns the run queue as a list of task ids
//! and decides, per activation, which tasks to poll, which tasks leave the
//! queue, and — from a decoded event — which handlers to spawn and which
//! host calls to make. The embedding layer performs the returned
//! [`Action`]s, polls the actual suspended computations, and reports their
//! completions back through [`App::advance`].
//!
//! On the very first activation the driver raises [`Event::Started`] itself
//! and moves from [`Phase::Starting`] to [`Phase::Running`]; envelopes are
//! handled from then on.

use vstd::prelude::*;
use crate::data::ChunkPos;
use crate::event::{decode, decoded, known_kind, Event};
use crate::registry::{EventKind, Registry};

verus! {

/// The driver's lifecycle: before and after the first activation.
#[derive(Clone, Copy, Debug, PartialEq, Eq, Structural, Hash)]
pub enum Phase {
    Starting,
    Running,
}

/// One thing the embedding layer must do, in order, after a dispatch.
pub enum Action {
    /// Spawn one unit of work: call the closure registered under `handler`
    /// with (a copy of) the decoded `event`, and queue the suspended
    /// computation it returns under the task id `task`.
    Spawn { task: u64, handler: u64, event: Event },
    /// Call the host's mark-chunk-ready operation: the default action for a
    /// chunk-loading event no handler is registered for.
    MarkReady { session: u64, chunk: ChunkPos },
}

/// The event kind an event dispatches under; an unknown event dispatches to
/// nobody.
pub open spec fn kind_of_event(ev: Event) -> Option<EventKind> {
    match ev {
        Event::Started => Some(EventKind::Started),
        Event::PlayerJoined { .. } => Some(EventKind::PlayerJoined),
        Event::PlayerLeft { .. } => Some(EventKind::PlayerLeft),
        Event::ChunkLoading { .. } => Some(EventKind::ChunkLoading),
        Event::ChunkUnloaded { .. } => Some(EventKind::ChunkUnloaded),
        Event::Unknown { .. } => None,
    }
}

/// The fresh task ids for `n` spawns counted from `next`.
pub open spec fn new_ids(next: u64, n: int) -> Seq<u64> {
    Seq::new(n as nat, |i: int| (next + i) as u64)
}

/// The spawn actions for `ev` handed to the handlers `hs` in order, under
/// task ids counted from `next`.
pub open spec fn spawn_actions(next: u64, hs: Seq<u64>, ev: Event) -> Seq<Action> {
    Seq::new(hs.len(), |i: int| Action::Spawn { task: (next + i) as u64, handler: hs[i], event: ev })
}

/// How many units of work dispatching `ev` spawns: one per registered
/// handler of its kind — none for an unknown event, and none for a
/// chunk-loading event with no handlers, which takes the default action
/// instead.
pub open spec fn spawn_count(reg: Registry, ev: Event) -> int {
    match kind_of_event(ev) {
        Some(k) => if k == EventKind::ChunkLoading && reg.handlers_of(k).len() == 0 {
            0
        } else {
            reg.handlers_of(k).len() as int
        },
        None => 0,
    }
}

/// The ordered actions dispatching `ev` asks of the embedding layer: one
/// spawn per registered handler in registration order; for a chunk-loading
/// event with no handlers, exactly one mark-ready call with the event's
/// chunk coordinates instead.
pub open spec fn dispatch_actions(reg: Registry, next: u64, ev: Event) -> Seq<Action> {
    match ev {
        Event::ChunkLoading { session, chunk } => {
            if reg.handlers_of(EventKind::ChunkLoading).len() == 0 {
                seq![Action::MarkReady { session, chunk }]
            } else {
                spawn_actions(next, reg.handlers_of(EventKind::ChunkLoading), ev)
            }
        },
        Event::Unknown { .. } => Seq::empty(),
        _ => spawn_actions(next, reg.handlers_of(kind_of_event(ev).unwrap()), ev),
    }
}

/// Law: a chunk-loading event with no registered handlers takes the default
/// action — exactly one mark-ready call carrying the event's session and
/// chunk coordinates — and spawns no units of work.
pub proof fn lemma_chunk_loading_default(reg: Registry, next: u64, session: u64, chunk: ChunkPos)
    requires
        reg.handlers_of(EventKind::ChunkLoading).len() == 0,
    ensures
        dispatch_actions(reg, next, Event::ChunkLoading { session, chunk }) == seq![
            Action::MarkReady { session, chunk },
        ],
        spawn_count(reg, Event::ChunkLoading { session, chunk }) == 0,
{
}

/// Law: dispatching an event of a known kind — apart from the chunk-loading
/// default — asks for one spawn per handler registered for that kind, in
/// registration order, each carrying the event itself and a fresh task id
/// counted up from `next`.
pub proof fn lemma_spawn_order(reg: Registry, next: u64, ev: Event, k: EventKind)
    requires
        kind_of_event(ev) == Some(k),
        !(k == EventKind::ChunkLoading && reg.handlers_of(k).len() == 0),
    ensures
        dispatch_actions(reg, next, ev).len() == reg.handlers_of(k).len(),
        forall|i: int|
            0 <= i < reg.handlers_of(k).len() ==> dispatch_actions(reg, next, ev)[i]
                == (Action::Spawn {
                task: (next + i) as u64,
                handler: reg.handlers_of(k)[i],
                event: ev,
            }),
{
}

/// A copy of the decoded arguments, one per spawned unit of work.
fn duplicate_event(ev: &Event) -> (r: Event)
    ensures
        r == *ev,
{
    match ev {
        Event::Started => Event::Started,
        Event::PlayerJoined { session } => Event::PlayerJoined { session: *session },
        Event::PlayerLeft { session } => Event::PlayerLeft { session: *session },
        Event::ChunkLoading { session, chunk } => Event::ChunkLoading {
            session: *session,
            chunk: *chunk,
        },
        Event::ChunkUnloaded { session, chunk } => Event::ChunkUnloaded {
            session: *session,
            chunk: *chunk,
        },
        Event::Unknown { kind } => Event::Unknown { kind: kind.clone() },
    }
}

/// The event kind an event dispatches under.
fn kind_of(ev: &Event) -> (r: Option<EventKind>)
    ensures
        r == kind_of_event(*ev),
{
    match ev {
        Event::Started => Some(EventKind::Started),
        Event::PlayerJoined { .. } => Some(EventKind::PlayerJoined),
        Event::PlayerLeft { .. } => Some(EventKind::PlayerLeft),
        Event::ChunkLoading { .. } => Some(EventKind::ChunkLoading),
        Event::ChunkUnloaded { .. } => Some(EventKind::ChunkUnloaded),
        Event::Unknown { .. } => None,
    }
}

/// The task ids that stay queued: those whose completion flag is false, in
/// order.
pub open spec fn retained(q: Seq<u64>, c: Seq<bool>) -> Seq<u64>
    decreases q.len(),
{
    if q.len() == 0 {
        Seq::empty()
    } else {
        retained(q.drop_last(), c.drop_last()) + if c.last() {
            Seq::<u64>::empty()
        } else {
            seq![q.last()]
        }
    }
}

/// What stays queued is a selection of what was queued: no longer, every id
/// from the queue, and still distinct when the queue was.
proof fn lemma_retained_props(q: Seq<u64>, c: Seq<bool>)
    requires
        q.len() == c.len(),
    ensures
        retained(q, c).len() <= q.len(),
        forall|a: int|
            0 <= a < retained(q, c).len() ==> q.contains(#[trigger] retained(q, c)[a]),
        (forall|i: int, j: int| 0 <= i < j < q.len() ==> q[i] != q[j]) ==> (forall|i: int, j: int|
            0 <= i < j < retained(q, c).len() ==> retained(q, c)[i] != retained(q, c)[j]),
    decreases q.len(),
{
    if q.len() == 0 {
    } else {
        lemma_retained_props(q.drop_last(), c.drop_last());
        let r = retained(q, c);
        let rd = retained(q.drop_last(), c.drop_last());
        assert forall|a: int| 0 <= a < r.len() implies q.contains(#[trigger] r[a]) by {
            if a < rd.len() {
                assert(rd[a] == r[a]);
                let k = choose|k: int| 0 <= k < q.drop_last().len() && q.drop_last()[k] == rd[a];
                assert(q[k] == r[a]);
            } else {
                assert(r[a] == q.last());
                assert(q[q.len() - 1] == q.last());
            }
        }
        if forall|i: int, j: int| 0 <= i < j < q.len() ==> q[i] != q[j] {
            assert(forall|i: int, j: int|
                0 <= i < j < q.drop_last().len() ==> q.drop_last()[i] != q.drop_last()[j]);
            assert forall|i: int, j: int| 0 <= i < j < r.len() implies r[i] != r[j] by {
                if j < rd.len() {
                    assert(rd[i] == r[i] && rd[j] == r[j]);
                } else {
                    assert(r[j] == q.last());
                    assert(q.drop_last().contains(rd[i]));
                    let k = choose|k: int|
                        0 <= k < q.drop_last().len() && q.drop_last()[k] == rd[i];
                    assert(q[k] == rd[i]);
                    assert(q[k] != q[q.len() - 1]);
                }
            }
        }
    }
}

/// The cooperative scheduler: registrations, the run queue, and the
/// activation phase.
///
/// The embedding layer drives it per activation: [`App::pending`] names the
/// tasks to poll once, [`App::advance`] removes the completed ones, and
/// [`App::start`] (first activation) or [`App::handle_envelope`] (every
/// later one) turns the activation's event into spawns and host calls.
pub struct App {
    registry: Registry,
    queue: Vec<u64>,
    next_task: u64,
    phase: Phase,
}

impl App {
    /// The handler registrations.
    pub closed spec fn spec_registry(&self) -> Registry {
        self.registry
    }

    /// The queued task ids, in spawn order.
    pub closed spec fn spec_queue(&self) -> Seq<u64> {
        self.queue@
    }

    /// The next fresh task id.
    pub closed spec fn spec_next_task(&self) -> u64 {
        self.next_task
    }

    /// Where the driver stands in its lifecycle.
    pub closed spec fn spec_phase(&self) -> Phase {
        self.phase
    }

    /// Queued task ids are distinct and below the fresh-id counter.
    #[verifier::type_invariant]
    spec fn inv(self) -> bool {
        &&& forall|i: int, j: int|
            0 <= i < j < self.queue@.len() ==> self.queue@[i] != self.queue@[j]
        &&& forall|i: int| 0 <= i < self.queue@.len() ==> #[trigger] self.queue@[i] < self.next_task
    }

    /// Creates a driver with no registrations and nothing queued, before its
    /// first activation.
    pub fn new() -> (r: Self)
        ensures
            r.spec_phase() == Phase::Starting,
            r.spec_queue() == Seq::<u64>::empty(),
            r.spec_next_task() == 0,
            forall|k: EventKind| r.spec_registry().handlers_of(k) == Seq::<u64>::empty(),
    {
        App { registry: Registry::new(), queue: Vec::new(), next_task: 0, phase: Phase::Starting }
    }

    /// Registers a handler id for an event kind, after all handlers already
    /// registered for it. Registrations are fixed before the loop starts:
    /// there is no unregister.
    pub fn register(&mut self, kind: EventKind, handler: u64)
        ensures
            final(self).spec_registry().handlers_of(kind) == old(self).spec_registry().handlers_of(
                kind,
            ).push(handler),
            forall|k: EventKind|
                k != kind ==> final(self).spec_registry().handlers_of(k) == old(
                    self,
                ).spec_registry().handlers_of(k),
            final(self).spec_queue() == old(self).spec_queue(),
            final(self).spec_next_task() == old(self).spec_next_task(),
            final(self).spec_phase() == old(self).spec_phase(),
    {
        proof {
            use_type_invariant(&*self);
        }
        let mut reg = Registry::new();
        core::mem::swap(&mut reg, &mut self.registry);
        reg.register(kind, handler);
        core::mem::swap(&mut self.registry, &mut reg);
    }

    /// Whether the first activation has completed and the driver sits in its
    /// steady-state loop.
    pub fn is_running(&self) -> (r: bool)
        ensures
            r == (self.spec_phase() == Phase::Running),
    {
        match self.phase {
            Phase::Running => true,
            Phase::Starting => false,
        }
    }

    /// Whether there is task-id headroom for another dispatch, whatever event
    /// it turns out to carry. The id counter only grows; on a 64-bit counter
    /// this holds for any realistic run.
    pub fn can_dispatch(&self) -> (r: bool)
        ensures
            r == (self.spec_next_task() + self.spec_registry().total() <= u64::MAX),
    {
        let total: u128 = (self.registry.count(EventKind::Started) as u128) + (self.registry.count(
            EventKind::PlayerJoined,
        ) as u128) + (self.registry.count(EventKind::PlayerLeft) as u128) + (self.registry.count(
            EventKind::ChunkLoading,
        ) as u128) + (self.registry.count(EventKind::ChunkUnloaded) as u128);
        (self.next_task as u128) + total <= u64::MAX as u128
    }

    /// The tasks to advance this activation: the queue as it stands, in
    /// spawn order. Poll each exactly once, then report completions through
    /// [`App::advance`].
    #[verifier::loop_isolation(false)]
    pub fn pending(&self) -> (r: Vec<u64>)
        ensures
            r@ == self.spec_queue(),
    {
        let mut r: Vec<u64> = Vec::new();
        let mut i: usize = 0;
        while i < self.queue.len()
            invariant
                i <= self.queue@.len(),
                r@ == self.queue@.subrange(0, i as int),
            decreases self.queue@.len() - i,
        {
            r.push(self.queue[i]);
            proof {
                assert(r@ =~= self.queue@.subrange(0, i + 1));
            }
            i += 1;
        }
        proof {
            assert(self.queue@.subrange(0, self.queue@.len() as int) =~= self.queue@);
        }
        r
    }

    /// Removes the tasks whose poll completed: `completed[i]` reports the
    /// task at queue position `i`. A unit that is not finished stays queued,
    /// in order, for the next activation.
    #[verifier::loop_isolation(false)]
    pub fn advance(&mut self, completed: &Vec<bool>)
        requires
            completed@.len() == old(self).spec_queue().len(),
        ensures
            final(self).spec_queue() == retained(old(self).spec_queue(), completed@),
            final(self).spec_registry() == old(self).spec_registry(),
            final(self).spec_next_task() == old(self).spec_next_task(),
            final(self).spec_phase() == old(self).spec_phase(),
    {
        let ghost q = self.queue@;
        proof {
            use_type_invariant(&*self);
            assert(forall|i: int| 0 <= i < q.len() ==> #[trigger] q[i] < self.next_task);
            assert(forall|i: int, j: int| 0 <= i < j < q.len() ==> q[i] != q[j]);
        }
        let mut kept: Vec<u64> = Vec::new();
        let mut i: usize = 0;
        while i < self.queue.len()
            invariant
                i <= q.len(),
                completed@.len() == q.len(),
                self.queue@ == q,
                kept@ == retained(q.subrange(0, i as int), completed@.subrange(0, i as int)),
            decreases q.len() - i,
        {
            let ghost pre = kept@;
            if !completed[i] {
                kept.push(self.queue[i]);
            }
            proof {
                let qp = q.subrange(0, i + 1);
                let cp = completed@.subrange(0, i + 1);
                assert(qp.drop_last() =~= q.subrange(0, i as int));
                assert(cp.drop_last() =~= completed@.subrange(0, i as int));
                assert(qp.last() == q[i as int] && cp.last() == completed@[i as int]);
                if completed@[i as int] {
                    assert(kept@ =~= retained(qp, cp));
                } else {
                    assert(kept@ =~= retained(qp, cp));
                }
            }
            i += 1;
        }
        proof {
            assert(q.subrange(0, q.len() as int) =~= q);
            assert(completed@.subrange(0, q.len() as int) =~= completed@);
            lemma_retained_props(q, completed@);
            assert forall|a: int| 0 <= a < kept@.len() implies #[trigger] kept@[a]
                < self.next_task by {
                assert(q.contains(kept@[a]));
                let k = choose|k: int| 0 <= k < q.len() && q[k] == kept@[a];
                assert(q[k] < self.next_task);
            }
        }
        self.queue = kept;
    }

    /// The very first activation: fires every `Started` handler as a spawned
    /// unit of work, in registration order, and moves into the steady-state
    /// loop.
    pub fn start(&mut self) -> (actions: Vec<Action>)
        requires
            old(self).spec_phase() == Phase::Starting,
            old(self).spec_next_task() + old(self).spec_registry().total() <= u64::MAX,
        ensures
            final(self).spec_phase() == Phase::Running,
            final(self).spec_registry() == old(self).spec_registry(),
            actions@ == dispatch_actions(
                old(self).spec_registry(),
                old(self).spec_next_task(),
                Event::Started,
            ),
            final(self).spec_queue() == old(self).spec_queue() + new_ids(
                old(self).spec_next_task(),
                spawn_count(old(self).spec_registry(), Event::Started),
            ),
            final(self).spec_next_task() == old(self).spec_next_task() + spawn_count(
                old(self).spec_registry(),
                Event::Started,
            ),
    {
        proof {
            use_type_invariant(&*self);
        }
        self.phase = Phase::Running;
        self.dispatch_event(&Event::Started)
    }

    /// Dispatches a decoded event: spawns one unit of work per handler
    /// registered for its kind, passing each a copy of the event, in
    /// registration order. A chunk-loading event with no registered handlers
    /// takes the default action instead: exactly one mark-ready call with
    /// the event's chunk coordinates, and no spawns. An unknown event asks
    /// for nothing and never stops the loop.
    #[verifier::loop_isolation(false)]
    pub fn dispatch_event(&mut self, ev: &Event) -> (actions: Vec<Action>)
        requires
            old(self).spec_next_task() + old(self).spec_registry().total() <= u64::MAX,
        ensures
            final(self).spec_registry() == old(self).spec_registry(),
            final(self).spec_phase() == old(self).spec_phase(),
            actions@ == dispatch_actions(
                old(self).spec_registry(),
                old(self).spec_next_task(),
                *ev,
            ),
            final(self).spec_queue() == old(self).spec_queue() + new_ids(
                old(self).spec_next_task(),
                spawn_count(old(self).spec_registry(), *ev),
            ),
            final(self).spec_next_task() == old(self).spec_next_task() + spawn_count(
                old(self).spec_registry(),
                *ev,
            ),
    {
        let ghost q = self.queue@;
        let ghost next0 = self.next_task;
        proof {
            use_type_invariant(&*self);
            assert(forall|i: int| 0 <= i < q.len() ==> #[trigger] q[i] < next0);
            assert(forall|i: int, j: int| 0 <= i < j < q.len() ==> q[i] != q[j]);
        }
        let mut actions: Vec<Action> = Vec::new();
        match kind_of(ev) {
            None => {
                proof {
                    assert(q + new_ids(next0, 0) =~= q);
                    assert(actions@ =~= dispatch_actions(self.registry, next0, *ev));
                }
                actions
            },
            Some(kind) => {
                let n = self.registry.count(kind);
                proof {
                    assert(self.registry.handlers_of(kind).len() <= self.registry.total());
                }
                if kind == EventKind::ChunkLoading && n == 0 {
                    if let Event::ChunkLoading { session, chunk } = ev {
                        actions.push(Action::MarkReady { session: *session, chunk: *chunk });
                    }
                    proof {
                        assert(q + new_ids(next0, 0) =~= q);
                        assert(actions@ =~= dispatch_actions(self.registry, next0, *ev));
                    }
                    return actions;
                }
                let ghost hs = self.registry.handlers_of(kind);
                let mut ids: Vec<u64> = Vec::new();
                let mut i: usize = 0;
                while i < n
                    invariant
                        i <= n,
                        n == hs.len(),
                        hs == self.registry.handlers_of(kind),
                        *self == *old(self),
                        next0 == self.next_task,
                        next0 + hs.len() <= u64::MAX,
                        actions@ == spawn_actions(next0, hs, *ev).subrange(0, i as int),
                        ids@ == new_ids(next0, i as int),
                    decreases n - i,
                {
                    let h = self.registry.handler_at(kind, i);
                    let t: u64 = self.next_task + (i as u64);
                    actions.push(Action::Spawn { task: t, handler: h, event: duplicate_event(ev) });
                    ids.push(t);
                    proof {
                        assert(actions@ =~= spawn_actions(next0, hs, *ev).subrange(0, i + 1));
                        assert(ids@ =~= new_ids(next0, i + 1));
                    }
                    i += 1;
                }
                self.next_task = self.next_task + (n as u64);
                let mut queue: Vec<u64> = Vec::new();
                core::mem::swap(&mut queue, &mut self.queue);
                queue.append(&mut ids);
                proof {
                    assert(queue@ =~= q + new_ids(next0, n as int));
                    assert forall|a: int, b: int|
                        0 <= a < b < queue@.len() implies queue@[a] != queue@[b] by {
                        if b < q.len() {
                        } else if a < q.len() {
                            assert(q[a] < next0);
                            assert(queue@[b] == next0 + (b - q.len()));
                        } else {
                            assert(queue@[a] == next0 + (a - q.len()));
                            assert(queue@[b] == next0 + (b - q.len()));
                        }
                    }
                    assert forall|a: int|
                        0 <= a < queue@.len() implies #[trigger] queue@[a] < self.next_task by {
                        if a < q.len() {
                            assert(q[a] < next0);
                        } else {
                            assert(queue@[a] == next0 + (a - q.len()));
                        }
                    }
                }
                core::mem::swap(&mut self.queue, &mut queue);
                proof {
                    assert(spawn_actions(next0, hs, *ev).subrange(
                        0,
                        hs.len() as int,
                    ) =~= spawn_actions(next0, hs, *ev));
                    assert(actions@ =~= dispatch_actions(old(self).spec_registry(), next0, *ev));
                }
                actions
            },
        }
    }

    /// One steady-state envelope, as the host hands it over: decode it and
    /// dispatch the result. A buffer too short for its kind and an unknown
    /// kind both leave the driver unchanged and ask for nothing — neither is
    /// ever fatal to the loop.
    pub fn handle_envelope(&mut self, kind: &String, args: &Vec<u8>) -> (actions: Vec<Action>)
        requires
            old(self).spec_next_task() + old(self).spec_registry().total() <= u64::MAX,
        ensures
            final(self).spec_registry() == old(self).spec_registry(),
            final(self).spec_phase() == old(self).spec_phase(),
            ({
                let d = decoded(kind@, args@);
                if known_kind(kind@) && d is Some {
                    let ev = d.unwrap();
                    &&& actions@ == dispatch_actions(
                        old(self).spec_registry(),
                        old(self).spec_next_task(),
                        ev,
                    )
                    &&& final(self).spec_queue() == old(self).spec_queue() + new_ids(
                        old(self).spec_next_task(),
                        spawn_count(old(self).spec_registry(), ev),
                    )
                    &&& final(self).spec_next_task() == old(self).spec_next_task() + spawn_count(
                        old(self).spec_registry(),
                        ev,
                    )
                } else {
                    &&& actions@ == Seq::<Action>::empty()
                    &&& final(self).spec_queue() == old(self).spec_queue()
                    &&& final(self).spec_next_task() == old(self).spec_next_task()
                }
            }),
    {
        match decode(kind, args) {
            Some(ev) => {
                let actions = self.dispatch_event(&ev);
                proof {
                    if !known_kind(kind@) {
                        assert(old(self).spec_queue() + new_ids(old(self).spec_next_task(), 0)
                            =~= old(self).spec_queue());
                    }
                }
                actions
            },
            None => {
                proof {
                    use_type_invariant(&*self);
                }
                Vec::new()
            },
        }
    }
}

} // verus!
