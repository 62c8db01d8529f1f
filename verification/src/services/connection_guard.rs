use vstd::prelude::*;
use crate::domain::server_type::{acquired, released, worker_views, ServerType};

verus! {

/// The reservation of one connection slot on one worker, held for the
/// time one request is being forwarded.
///
/// Making the guard counts the connection. Whoever holds the guard hands
/// it back with [`ConnectionGuard::release`] when the forwarding attempt
/// ends, however it ends; that counts the connection off again. A guard
/// cannot be copied, so it is released at most once.
pub struct ConnectionGuard {
    worker: usize,
}

impl ConnectionGuard {
    /// The index, in the registry, of the worker this guard reserves.
    pub closed spec fn worker_index(&self) -> int {
        self.worker as int
    }

    /// Reserves a connection slot on the worker at `worker`.
    pub fn new(worker_hosts: &mut Vec<ServerType>, worker: usize) -> (guard: ConnectionGuard)
        requires
            worker < old(worker_hosts)@.len(),
        ensures
            guard.worker_index() == worker,
            final(worker_hosts)@.len() == old(worker_hosts)@.len(),
            worker_views(final(worker_hosts)@) == acquired(
                worker_views(old(worker_hosts)@),
                worker as int,
            ),
    {
        worker_hosts[worker].add_connection();
        proof {
            assert(worker_views(worker_hosts@) =~= acquired(
                worker_views(old(worker_hosts)@),
                worker as int,
            ));
        }
        ConnectionGuard { worker }
    }

    /// The index of the reserved worker.
    pub fn worker(&self) -> (index: usize)
        ensures
            index == self.worker_index(),
    {
        self.worker
    }

    /// Gives the slot back.
    pub fn release(self, worker_hosts: &mut Vec<ServerType>)
        requires
            self.worker_index() < old(worker_hosts)@.len(),
        ensures
            final(worker_hosts)@.len() == old(worker_hosts)@.len(),
            worker_views(final(worker_hosts)@) == released(
                worker_views(old(worker_hosts)@),
                self.worker_index(),
            ),
    {
        worker_hosts[self.worker].remove_connection();
        proof {
            assert(worker_views(worker_hosts@) =~= released(
                worker_views(old(worker_hosts)@),
                self.worker_index(),
            ));
        }
    }
}

} // verus!
