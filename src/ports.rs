use std::collections::HashMap;
use vstd::prelude::*;
use vstd::std_specs::hash::*;

use crate::events::{Error, ErrorKind};
use crate::state::State;

verus! {

broadcast use group_hash_axioms;

/// The ports reserved by the instances of this process, each with the instance holding it. A
/// stopped instance keeps its reservation; only deleting the instance gives the port back.
#[derive(Debug)]
pub struct PortCoordinator {
    allocated: HashMap<u32, u64>,
}

/// Reserving a port that was free and giving it back leaves the reservations as they were.
pub proof fn law_allocate_then_deallocate(before: Map<u32, u64>, p: u32, instance: u64)
    requires
        !before.contains_key(p),
    ensures
        before.insert(p, instance).remove(p) == before,
{
    assert(before.insert(p, instance).remove(p) =~= before);
}

impl PortCoordinator {
    /// The reserved ports, each with the instance holding it.
    pub closed spec fn reserved(&self) -> Map<u32, u64> {
        self.allocated@
    }

    /// A coordinator with no port reserved.
    pub fn new() -> (r: PortCoordinator)
        ensures
            r.reserved() == Map::<u32, u64>::empty(),
    {
        PortCoordinator { allocated: HashMap::new() }
    }

    /// Records that `instance` holds `port`, unless another instance holds it already. The
    /// result says whether `instance` holds the port afterwards.
    pub fn allocate(&mut self, port: u32, instance: u64) -> (r: bool)
        ensures
            !old(self).reserved().contains_key(port) ==> r && final(self).reserved() == old(
                self,
            ).reserved().insert(port, instance),
            old(self).reserved().contains_key(port) ==> r == (old(self).reserved()[port]
                == instance) && final(self).reserved() == old(self).reserved(),
    {
        match self.allocated.get(&port) {
            Some(holder) => *holder == instance,
            None => {
                self.allocated.insert(port, instance);
                true
            },
        }
    }

    /// Gives `port` back, returning the instance that held it.
    pub fn deallocate(&mut self, port: u32) -> (r: Option<u64>)
        ensures
            final(self).reserved() == old(self).reserved().remove(port),
            r == (if old(self).reserved().contains_key(port) {
                Some(old(self).reserved()[port])
            } else {
                None
            }),
    {
        self.allocated.remove(&port)
    }

    /// The instance holding `port`, if one does.
    pub fn holder(&self, port: u32) -> (r: Option<u64>)
        ensures
            r == (if self.reserved().contains_key(port) {
                Some(self.reserved()[port])
            } else {
                None
            }),
    {
        match self.allocated.get(&port) {
            Some(h) => Some(*h),
            None => None,
        }
    }

    /// Whether `port` is reserved.
    pub fn is_allocated(&self, port: u32) -> (r: bool)
        ensures
            r == self.reserved().contains_key(port),
    {
        self.allocated.contains_key(&port)
    }

    /// Gives back the port of an instance being deleted. Only a stopped instance can be
    /// deleted; otherwise nothing changes and `InvalidState` is returned.
    pub fn release_on_delete(&mut self, instance_state: State, port: u32) -> (r: Result<(), Error>)
        ensures
            instance_state == State::Stopped ==> r is Ok && final(self).reserved() == old(
                self,
            ).reserved().remove(port),
            instance_state != State::Stopped ==> (r matches Err(e) && e.kind
                == ErrorKind::InvalidState) && final(self).reserved() == old(self).reserved(),
    {
        if instance_state != State::Stopped {
            return Err(Error::new(ErrorKind::InvalidState, "Instance must be stopped before deletion"));
        }
        self.deallocate(port);
        Ok(())
    }
}

/// Relies on port_scanner::local_port_available: whether a listener can bind 127.0.0.1 on
/// `port` at this moment. The answer depends on the host, so nothing is promised about it.
#[verifier::external_body]
pub(crate) fn port_free_on_host(port: u16) -> (r: bool) {
    port_scanner::local_port_available(port)
}

} // verus!
