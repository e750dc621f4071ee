use vstd::prelude::*;
use crate::memory_store::MemoryStore;
use crate::traits::{empty_contents, StateStore};

verus! {

/// Configuration for the stores a client is built over. By default it
/// carries an empty in-memory state store; a custom backend can be
/// plugged in. The holder name tells concurrent processes apart where
/// the backends take cross-process locks.
pub struct StoreConfig<S: StateStore> {
    /// The state-store backend.
    pub(crate) state_store: S,
    /// The name this process holds cross-process store locks under.
    pub(crate) cross_process_store_locks_holder_name: String,
}

impl StoreConfig<MemoryStore> {
    /// A default configuration: a fresh in-memory state store.
    pub fn new(cross_process_store_locks_holder_name: String) -> (r: Self)
        ensures
            r.state_store_view().inv(),
            r.state_store_view().contents() == empty_contents(),
            r.holder_name() == cross_process_store_locks_holder_name@,
    {
        StoreConfig {
            state_store: MemoryStore::new(),
            cross_process_store_locks_holder_name,
        }
    }
}

impl<S: StateStore> StoreConfig<S> {
    /// The configured state store, as a value.
    pub open(crate) spec fn state_store_view(&self) -> S {
        self.state_store
    }

    /// The configured holder name.
    pub open(crate) spec fn holder_name(&self) -> Seq<char> {
        self.cross_process_store_locks_holder_name@
    }

    /// Plugs a custom state-store implementation in, keeping the holder
    /// name.
    pub fn state_store<S2: StateStore>(self, store: S2) -> (r: StoreConfig<S2>)
        ensures
            r.state_store_view() == store,
            r.holder_name() == self.holder_name(),
    {
        StoreConfig {
            state_store: store,
            cross_process_store_locks_holder_name: self.cross_process_store_locks_holder_name,
        }
    }

    /// Takes the configuration apart, handing the backend out for a
    /// store façade to own.
    pub fn into_state_store(self) -> (r: S)
        ensures
            r == self.state_store_view(),
    {
        self.state_store
    }
}

} // verus!
