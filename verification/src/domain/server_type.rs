use vstd::prelude::*;

verus! {

/// A worker as the contracts speak of it: its identity, its address and
/// the number of forwards currently open to it.
pub struct ServerView {
    pub name: Seq<char>,
    pub address: Seq<char>,
    pub connections: nat,
}

/// One backend: a name, the base URL requests are forwarded to, and the
/// count of connections currently open to it.
///
/// The count is a machine integer. It changes only through
/// [`ServerType::add_connection`] and [`ServerType::remove_connection`],
/// both of which need exclusive access; callers that share a worker between
/// tasks keep it behind a lock.
pub struct ServerType {
    name: String,
    address_ip: String,
    active_connections: usize,
}

impl View for ServerType {
    type V = ServerView;

    closed spec fn view(&self) -> ServerView {
        ServerView {
            name: self.name@,
            address: self.address_ip@,
            connections: self.active_connections as nat,
        }
    }
}

/// The count after one more connection. The counter wraps at the top of its
/// range, as a machine counter does.
pub open spec fn incremented(count: nat) -> nat {
    if count >= usize::MAX {
        0
    } else {
        count + 1
    }
}

/// The count after one connection fewer. A count of zero stays zero.
pub open spec fn decremented(count: nat) -> nat {
    if count > 0 {
        (count - 1) as nat
    } else {
        0
    }
}

/// The count after `times` releases in a row.
pub open spec fn decremented_by(count: nat, times: nat) -> nat
    decreases times,
{
    if times == 0 {
        count
    } else {
        decremented_by(decremented(count), (times - 1) as nat)
    }
}

/// The registry as the contracts speak of it.
pub open spec fn worker_views(workers: Seq<ServerType>) -> Seq<ServerView> {
    Seq::new(workers.len(), |i: int| workers[i]@)
}

/// The connection counts of a registry, in registry order.
pub open spec fn view_counts(workers: Seq<ServerView>) -> Seq<nat> {
    Seq::new(workers.len(), |i: int| workers[i].connections)
}

/// The registry after one more connection is counted for the worker at
/// `index`.
pub open spec fn acquired(workers: Seq<ServerView>, index: int) -> Seq<ServerView> {
    workers.update(
        index,
        ServerView { connections: incremented(workers[index].connections), ..workers[index] },
    )
}

/// The registry after one connection fewer is counted for the worker at
/// `index`.
pub open spec fn released(workers: Seq<ServerView>, index: int) -> Seq<ServerView> {
    workers.update(
        index,
        ServerView { connections: decremented(workers[index].connections), ..workers[index] },
    )
}

impl ServerType {
    /// A worker with no open connections.
    pub fn new(name: String, address_ip: String) -> (worker: ServerType)
        ensures
            worker@ == (ServerView { name: name@, address: address_ip@, connections: 0 }),
    {
        ServerType { name, address_ip, active_connections: 0 }
    }

    /// The worker's name.
    pub fn name(&self) -> (name: &String)
        ensures
            name@ == self@.name,
    {
        &self.name
    }

    /// The base URL of the worker.
    pub fn address_ip(&self) -> (address: &String)
        ensures
            address@ == self@.address,
    {
        &self.address_ip
    }

    /// Counts one more open connection.
    pub fn add_connection(&mut self)
        ensures
            final(self)@ == (ServerView {
                connections: incremented(old(self)@.connections),
                ..old(self)@
            }),
    {
        self.active_connections = self.active_connections.wrapping_add(1);
    }

    /// Counts one open connection fewer; does nothing at zero.
    pub fn remove_connection(&mut self)
        ensures
            final(self)@ == (ServerView {
                connections: decremented(old(self)@.connections),
                ..old(self)@
            }),
    {
        let current_connections = self.active_connections;
        if current_connections > 0 {
            self.active_connections = current_connections - 1;
        }
    }

    /// The number of connections currently open to this worker.
    pub fn active_connection_count(&self) -> (count: usize)
        ensures
            count == self@.connections,
    {
        self.active_connections
    }
}

/// A release undoes an acquisition: after a connection is counted and then
/// released, the count is what it was, for every count below the top of the
/// counter's range.
pub proof fn lemma_release_undoes_acquire(count: nat)
    requires
        count < usize::MAX,
    ensures
        decremented(incremented(count)) == count,
{
}

/// The same for a whole registry: a release after an acquisition leaves
/// every worker as it was.
pub proof fn lemma_released_undoes_acquired(workers: Seq<ServerView>, index: int)
    requires
        0 <= index < workers.len(),
        workers[index].connections < usize::MAX,
    ensures
        released(acquired(workers, index), index) == workers,
{
    assert(released(acquired(workers, index), index) =~= workers);
}

/// What happens to a worker's count: a connection is counted, or one is
/// counted off.
pub enum CountEvent {
    Acquire,
    Release,
}

/// The count after the events, first to last.
pub open spec fn count_after(start: nat, events: Seq<CountEvent>) -> nat
    decreases events.len(),
{
    if events.len() == 0 {
        start
    } else {
        match events.last() {
            CountEvent::Acquire => incremented(count_after(start, events.drop_last())),
            CountEvent::Release => decremented(count_after(start, events.drop_last())),
        }
    }
}

/// How many of the events are acquisitions.
pub open spec fn acquisitions(events: Seq<CountEvent>) -> nat
    decreases events.len(),
{
    if events.len() == 0 {
        0
    } else if events.last() is Acquire {
        acquisitions(events.drop_last()) + 1
    } else {
        acquisitions(events.drop_last())
    }
}

/// How many of the events are releases.
pub open spec fn releases(events: Seq<CountEvent>) -> nat
    decreases events.len(),
{
    if events.len() == 0 {
        0
    } else if events.last() is Release {
        releases(events.drop_last()) + 1
    } else {
        releases(events.drop_last())
    }
}

/// Whether every release gives back a slot that was taken before it: at no
/// point have more slots been released than acquired.
pub open spec fn releases_follow_acquisitions(events: Seq<CountEvent>) -> bool {
    forall|k: int|
        0 <= k <= events.len() ==> releases(#[trigger] events.take(k)) <= acquisitions(
            events.take(k),
        )
}

/// The count follows the forwards that are open, in whatever order
/// requests come and go. If slots are only released after they were
/// acquired and the counter does not wrap, the count stands at its start
/// plus the acquisitions that are not yet released; when every acquisition
/// has been released, it stands where it started.
pub proof fn lemma_count_follows_open_forwards(start: nat, events: Seq<CountEvent>)
    requires
        releases_follow_acquisitions(events),
        start + acquisitions(events) <= usize::MAX,
    ensures
        count_after(start, events) == start + acquisitions(events) - releases(events),
        acquisitions(events) == releases(events) ==> count_after(start, events) == start,
    decreases events.len(),
{
    if events.len() > 0 {
        let earlier = events.drop_last();
        assert forall|k: int| 0 <= k <= earlier.len() implies releases(#[trigger] earlier.take(k))
            <= acquisitions(earlier.take(k)) by {
            assert(earlier.take(k) == events.take(k));
        }
        lemma_count_follows_open_forwards(start, earlier);
        assert(events.take(events.len() as int) == events);
        assert(earlier.take(earlier.len() as int) == earlier);
        assert(releases(earlier.take(earlier.len() as int)) <= acquisitions(
            earlier.take(earlier.len() as int),
        ));
    }
}

/// Releasing never drives a count below zero: after `times` releases a
/// count that started at `count` stands at `count - times`, or at zero when
/// there were more releases than connections.
pub proof fn lemma_releases_stop_at_zero(count: nat, times: nat)
    ensures
        decremented_by(count, times) == if times >= count { 0 } else { (count - times) as nat },
    decreases times,
{
    if times > 0 {
        lemma_releases_stop_at_zero(decremented(count), (times - 1) as nat);
    }
}

} // verus!
