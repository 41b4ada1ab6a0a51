//! Per-event-kind ordered handler registrations.
//!
//! A handler is named by an opaque id; the embedding layer keeps the actual
//! closure under that id. Registrations are append-only: for each event kind
//! the registry keeps the ids in registration order, which is the order the
//! scheduler spawns them in.

use vstd::prelude::*;

verus! {

/// The kinds of event a handler can be registered for.
#[derive(Clone, Copy, Debug, PartialEq, Eq, Structural, Hash)]
pub enum EventKind {
    Started,
    PlayerJoined,
    PlayerLeft,
    ChunkLoading,
    ChunkUnloaded,
}

/// The ordered handler registrations, one list per event kind.
pub struct Registry {
    started: Vec<u64>,
    player_joined: Vec<u64>,
    player_left: Vec<u64>,
    chunk_loading: Vec<u64>,
    chunk_unloaded: Vec<u64>,
}

impl Registry {
    /// The handler ids registered for `kind`, in registration order.
    pub closed spec fn handlers_of(&self, kind: EventKind) -> Seq<u64> {
        match kind {
            EventKind::Started => self.started@,
            EventKind::PlayerJoined => self.player_joined@,
            EventKind::PlayerLeft => self.player_left@,
            EventKind::ChunkLoading => self.chunk_loading@,
            EventKind::ChunkUnloaded => self.chunk_unloaded@,
        }
    }

    /// How many handlers are registered over all kinds.
    pub open spec fn total(&self) -> int {
        self.handlers_of(EventKind::Started).len() as int + self.handlers_of(
            EventKind::PlayerJoined,
        ).len() as int + self.handlers_of(EventKind::PlayerLeft).len() as int + self.handlers_of(
            EventKind::ChunkLoading,
        ).len() as int + self.handlers_of(EventKind::ChunkUnloaded).len() as int
    }

    /// Creates an empty registry.
    pub fn new() -> (r: Self)
        ensures
            forall|k: EventKind| r.handlers_of(k) == Seq::<u64>::empty(),
    {
        let r = Registry {
            started: Vec::new(),
            player_joined: Vec::new(),
            player_left: Vec::new(),
            chunk_loading: Vec::new(),
            chunk_unloaded: Vec::new(),
        };
        proof {
            assert forall|k: EventKind| r.handlers_of(k) == Seq::<u64>::empty() by {
                assert(r.handlers_of(k) =~= Seq::<u64>::empty());
            }
        }
        r
    }

    /// Appends `handler` to the list for `kind`; all other kinds keep their
    /// lists. Registration order is invocation order.
    pub fn register(&mut self, kind: EventKind, handler: u64)
        ensures
            final(self).handlers_of(kind) == old(self).handlers_of(kind).push(handler),
            forall|k: EventKind|
                k != kind ==> final(self).handlers_of(k) == old(self).handlers_of(k),
    {
        match kind {
            EventKind::Started => self.started.push(handler),
            EventKind::PlayerJoined => self.player_joined.push(handler),
            EventKind::PlayerLeft => self.player_left.push(handler),
            EventKind::ChunkLoading => self.chunk_loading.push(handler),
            EventKind::ChunkUnloaded => self.chunk_unloaded.push(handler),
        }
    }

    /// The number of handlers registered for `kind`.
    pub fn count(&self, kind: EventKind) -> (r: usize)
        ensures
            r == self.handlers_of(kind).len(),
    {
        match kind {
            EventKind::Started => self.started.len(),
            EventKind::PlayerJoined => self.player_joined.len(),
            EventKind::PlayerLeft => self.player_left.len(),
            EventKind::ChunkLoading => self.chunk_loading.len(),
            EventKind::ChunkUnloaded => self.chunk_unloaded.len(),
        }
    }

    /// The `i`th handler registered for `kind`.
    pub fn handler_at(&self, kind: EventKind, i: usize) -> (r: u64)
        requires
            i < self.handlers_of(kind).len(),
        ensures
            r == self.handlers_of(kind)[i as int],
    {
        match kind {
            EventKind::Started => self.started[i],
            EventKind::PlayerJoined => self.player_joined[i],
            EventKind::PlayerLeft => self.player_left[i],
            EventKind::ChunkLoading => self.chunk_loading[i],
            EventKind::ChunkUnloaded => self.chunk_unloaded[i],
        }
    }
}

} // verus!
