//! What closing or destroying a file asks of the scheduler: events to
//! trigger and processes to kill.

use vstd::prelude::*;
use super::types::{ExplicitEventId, ProcessId};

verus! {

/// A set of events.
#[verifier::external_body]
pub struct EventSet {
    set: hashbrown::HashSet<ExplicitEventId>,
}

/// The events of an `EventSet`.
pub uninterp spec fn event_set_contents(s: EventSet) -> Set<ExplicitEventId>;

/// No events.
pub open spec fn no_events() -> Set<ExplicitEventId> {
    Set::empty()
}

/// `hashbrown::HashSet::new`: no events.
#[verifier::external_body]
fn event_set_new() -> (r: EventSet)
    ensures
        event_set_contents(r) == no_events(),
{
    EventSet { set: hashbrown::HashSet::new() }
}

/// `hashbrown::HashSet::insert`: `e` is now in the set.
#[verifier::external_body]
fn event_set_insert(s: &mut EventSet, e: ExplicitEventId)
    ensures
        event_set_contents(*final(s)) == event_set_contents(*old(s)).insert(e),
{
    s.set.insert(e);
}

/// `hashbrown::HashSet::iter`, copied: every event once, in the order the
/// table is walked, which this contract leaves open.
#[verifier::external_body]
fn event_set_items(s: &EventSet) -> (r: Vec<ExplicitEventId>)
    ensures
        forall|e: ExplicitEventId| r@.contains(e) <==> event_set_contents(*s).contains(e),
        forall|i: int, j: int| 0 <= i < j < r@.len() ==> r@[i] != r@[j],
{
    s.set.iter().copied().collect()
}

/// A set of processes.
#[verifier::external_body]
pub struct ProcessSet {
    set: hashbrown::HashSet<ProcessId>,
}

/// The processes of a `ProcessSet`.
pub uninterp spec fn process_set_contents(s: ProcessSet) -> Set<ProcessId>;

/// No processes.
pub open spec fn no_processes() -> Set<ProcessId> {
    Set::empty()
}

/// `hashbrown::HashSet::new`: no processes.
#[verifier::external_body]
fn process_set_new() -> (r: ProcessSet)
    ensures
        process_set_contents(r) == no_processes(),
{
    ProcessSet { set: hashbrown::HashSet::new() }
}

/// `hashbrown::HashSet::insert`: `p` is now in the set.
#[verifier::external_body]
fn process_set_insert(s: &mut ProcessSet, p: ProcessId)
    ensures
        process_set_contents(*final(s)) == process_set_contents(*old(s)).insert(p),
{
    s.set.insert(p);
}

/// `hashbrown::HashSet::iter`, copied: every process once, in the order
/// the table is walked, which this contract leaves open.
#[verifier::external_body]
fn process_set_items(s: &ProcessSet) -> (r: Vec<ProcessId>)
    ensures
        forall|p: ProcessId| r@.contains(p) <==> process_set_contents(*s).contains(p),
        forall|i: int, j: int| 0 <= i < j < r@.len() ==> r@[i] != r@[j],
{
    s.set.iter().copied().collect()
}

impl EventSet {
    pub open spec fn view(&self) -> Set<ExplicitEventId> {
        event_set_contents(*self)
    }

    pub fn new() -> (r: Self)
        ensures
            r.view() == no_events(),
    {
        event_set_new()
    }

    pub fn insert(&mut self, e: ExplicitEventId)
        ensures
            final(self).view() == old(self).view().insert(e),
    {
        event_set_insert(self, e)
    }

    /// The events, each once, in no given order.
    pub fn items(&self) -> (r: Vec<ExplicitEventId>)
        ensures
            forall|e: ExplicitEventId| r@.contains(e) <==> self.view().contains(e),
            forall|i: int, j: int| 0 <= i < j < r@.len() ==> r@[i] != r@[j],
    {
        event_set_items(self)
    }
}

impl ProcessSet {
    pub open spec fn view(&self) -> Set<ProcessId> {
        process_set_contents(*self)
    }

    pub fn new() -> (r: Self)
        ensures
            r.view() == no_processes(),
    {
        process_set_new()
    }

    pub fn insert(&mut self, p: ProcessId)
        ensures
            final(self).view() == old(self).view().insert(p),
    {
        process_set_insert(self, p)
    }

    /// The processes, each once, in no given order.
    pub fn items(&self) -> (r: Vec<ProcessId>)
        ensures
            forall|p: ProcessId| r@.contains(p) <==> self.view().contains(p),
            forall|i: int, j: int| 0 <= i < j < r@.len() ==> r@[i] != r@[j],
    {
        process_set_items(self)
    }
}

/// Events to trigger and processes to kill.
pub struct Trigger {
    trigger_events: EventSet,
    kill_processes: ProcessSet,
}

impl Trigger {
    pub closed spec fn spec_events(&self) -> Set<ExplicitEventId> {
        self.trigger_events.view()
    }

    pub closed spec fn spec_kills(&self) -> Set<ProcessId> {
        self.kill_processes.view()
    }

    /// Nothing to do.
    pub fn empty() -> (r: Self)
        ensures
            r.spec_events() == no_events(),
            r.spec_kills() == no_processes(),
    {
        Trigger { trigger_events: EventSet::new(), kill_processes: ProcessSet::new() }
    }

    /// Trigger these events.
    pub fn events(trigger_events: EventSet) -> (r: Self)
        ensures
            r.spec_events() == trigger_events.view(),
            r.spec_kills() == no_processes(),
    {
        Trigger { trigger_events, kill_processes: ProcessSet::new() }
    }

    /// Kill these processes.
    pub fn kill_processes(kill_processes: ProcessSet) -> (r: Self)
        ensures
            r.spec_events() == no_events(),
            r.spec_kills() == kill_processes.view(),
    {
        Trigger { trigger_events: EventSet::new(), kill_processes }
    }

    /// Kill one process.
    pub fn kill_process(pid: ProcessId) -> (r: Self)
        ensures
            r.spec_events() == no_events(),
            r.spec_kills() == no_processes().insert(pid),
    {
        let mut kill_processes = ProcessSet::new();
        kill_processes.insert(pid);
        Trigger { trigger_events: EventSet::new(), kill_processes }
    }

    /// The events to trigger, each once.
    pub fn event_list(&self) -> (r: Vec<ExplicitEventId>)
        ensures
            forall|e: ExplicitEventId| r@.contains(e) <==> self.spec_events().contains(e),
            forall|i: int, j: int| 0 <= i < j < r@.len() ==> r@[i] != r@[j],
    {
        self.trigger_events.items()
    }

    /// The processes to kill, each once.
    pub fn kill_list(&self) -> (r: Vec<ProcessId>)
        ensures
            forall|p: ProcessId| r@.contains(p) <==> self.spec_kills().contains(p),
            forall|i: int, j: int| 0 <= i < j < r@.len() ==> r@[i] != r@[j],
    {
        self.kill_processes.items()
    }
}

} // verus!
