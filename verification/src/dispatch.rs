//! The dispatching side of a run: it receives connected hosts until the end
//! marker, starts the run's operation once for each, and waits for every
//! operation it started.

use crate::channel::{arrival_of, Arrival, ConnectedSession, Slot, TaskEnd};
use crate::error::RunError;
use crate::operation::{Operation, OperationView};
use crate::report::{failure_level, failure_prefix, failure_record, LogLine};
use crate::server::{host_views, HostView, SessionInfo};
use vstd::prelude::*;

verus! {

/// Where the dispatching side stands.
#[derive(Debug, Clone, Copy, PartialEq, Eq, Structural)]
pub enum DispatchStage {
    /// Connected hosts are being received.
    Receiving,
    /// The end marker was received; the operations are being waited for.
    Joining,
    /// Every operation that was started has been waited for.
    Concluded,
    /// An operation was lost, which ended the run.
    Aborted,
}

/// The state of the dispatching side, as mathematical values.
pub struct DispatchView {
    /// The operation of the run.
    pub operation: OperationView,
    /// Where the dispatching side stands.
    pub stage: DispatchStage,
    /// The hosts for which the operation was started, in the order received.
    pub spawned: Seq<HostView>,
    /// How many of the operations have been waited for to their end.
    pub joined: nat,
}

/// What holds of the dispatching side at every moment: nothing is waited for
/// while hosts are received, and the run is concluded only when every
/// operation that was started has been waited for.
pub open spec fn consistent(side: DispatchView) -> bool {
    match side.stage {
        DispatchStage::Receiving => side.joined == 0,
        DispatchStage::Joining => side.joined < side.spawned.len(),
        DispatchStage::Concluded => side.joined == side.spawned.len(),
        DispatchStage::Aborted => side.joined < side.spawned.len(),
    }
}

/// The state at the start of a run of `operation`.
pub open spec fn dispatch_start(operation: OperationView) -> DispatchView {
    DispatchView { operation, stage: DispatchStage::Receiving, spawned: Seq::empty(), joined: 0 }
}

/// The state after one attempt to receive. While receiving, a connected host
/// has the operation started for it, and the end marker ends the receiving:
/// with nothing started the run is concluded, otherwise the waiting begins.
/// A closed channel changes nothing, and neither does anything that arrives
/// after the receiving has ended.
pub open spec fn after_arrival(side: DispatchView, arrival: Arrival) -> DispatchView {
    if side.stage != DispatchStage::Receiving {
        side
    } else {
        match arrival {
            Arrival::Host(host) => DispatchView { spawned: side.spawned.push(host), ..side },
            Arrival::End => DispatchView {
                stage: if side.spawned.len() == 0 {
                    DispatchStage::Concluded
                } else {
                    DispatchStage::Joining
                },
                ..side
            },
            Arrival::Closed => side,
        }
    }
}

/// Whether an operation is still being waited for.
pub open spec fn awaited(side: DispatchView) -> bool {
    side.stage == DispatchStage::Joining && side.joined < side.spawned.len()
}

/// The state after one more operation was waited for; `lost` says that the
/// operation's task itself was lost, which ends the run. An operation that
/// failed for its host counts as waited for like one that succeeded.
pub open spec fn after_join(side: DispatchView, lost: bool) -> DispatchView {
    if !awaited(side) {
        side
    } else if lost {
        DispatchView { stage: DispatchStage::Aborted, ..side }
    } else {
        DispatchView {
            joined: side.joined + 1,
            stage: if side.joined + 1 == side.spawned.len() {
                DispatchStage::Concluded
            } else {
                DispatchStage::Joining
            },
            ..side
        }
    }
}

/// The state after the given attempts to receive, in turn, from the start of
/// a run.
pub open spec fn after_arrivals(operation: OperationView, arrivals: Seq<Arrival>) -> DispatchView
    decreases arrivals.len(),
{
    if arrivals.len() == 0 {
        dispatch_start(operation)
    } else {
        after_arrival(after_arrivals(operation, arrivals.drop_last()), arrivals.last())
    }
}

/// The state after the operations were waited for whose ends are `ends`, in
/// turn; `true` stands for a lost one.
pub open spec fn after_joins(side: DispatchView, ends: Seq<bool>) -> DispatchView
    decreases ends.len(),
{
    if ends.len() == 0 {
        side
    } else {
        after_join(after_joins(side, ends.drop_last()), ends.last())
    }
}

/// Whether the end marker is among what arrived.
pub open spec fn has_end(arrivals: Seq<Arrival>) -> bool {
    exists|k: int| 0 <= k < arrivals.len() && arrivals[k] is End
}

/// The connected hosts that arrived before the first end marker, in order.
pub open spec fn hosts_before_end(arrivals: Seq<Arrival>) -> Seq<HostView>
    decreases arrivals.len(),
{
    if arrivals.len() == 0 {
        Seq::empty()
    } else {
        let earlier = hosts_before_end(arrivals.drop_last());
        if has_end(arrivals.drop_last()) {
            earlier
        } else {
            match arrivals.last() {
                Arrival::Host(host) => earlier.push(host),
                _ => earlier,
            }
        }
    }
}

/// Both kinds of step keep the dispatching side consistent.
pub proof fn lemma_steps_keep_consistent(side: DispatchView, arrival: Arrival, lost: bool)
    requires
        consistent(side),
    ensures
        consistent(after_arrival(side, arrival)),
        consistent(after_join(side, lost)),
{
}

/// The operation is started exactly for the connected hosts that arrive
/// before the first end marker, once each and in their order. The receiving
/// goes on exactly until that marker: what arrives behind it, a second marker
/// included, is not acted on.
pub proof fn lemma_spawned_before_end(operation: OperationView, arrivals: Seq<Arrival>)
    ensures
        after_arrivals(operation, arrivals).spawned == hosts_before_end(arrivals),
        after_arrivals(operation, arrivals).stage == DispatchStage::Receiving <==> !has_end(
            arrivals,
        ),
        after_arrivals(operation, arrivals).joined == 0,
        after_arrivals(operation, arrivals).operation == operation,
        consistent(after_arrivals(operation, arrivals)),
        has_end(arrivals) ==> (after_arrivals(operation, arrivals).stage
            == DispatchStage::Concluded <==> hosts_before_end(arrivals).len() == 0),
    decreases arrivals.len(),
{
    if arrivals.len() > 0 {
        let earlier = arrivals.drop_last();
        lemma_spawned_before_end(operation, earlier);
        if has_end(earlier) {
            let k = choose|k: int| 0 <= k < earlier.len() && earlier[k] is End;
            assert(arrivals[k] is End);
        } else if arrivals.last() is End {
            assert(arrivals[arrivals.len() - 1] is End);
        } else {
            if has_end(arrivals) {
                let k = choose|k: int| 0 <= k < arrivals.len() && arrivals[k] is End;
                assert(earlier[k] is End);
            }
        }
    }
}

/// What the connecting side feeds into the channel: the connected hosts, in
/// the order in which they were handed on, and the end marker behind them.
pub open spec fn feed(hosts: Seq<HostView>) -> Seq<Arrival> {
    Seq::new(hosts.len(), |i: int| Arrival::Host(hosts[i])).push(Arrival::End)
}

/// Whatever the order in which connected hosts are handed on, the operation
/// is started once for each of them and for no other host, and the marker
/// behind them ends the receiving: the waiting begins, or the run is
/// concluded where no host was handed on.
pub proof fn lemma_feed_spawns_each_once(operation: OperationView, hosts: Seq<HostView>)
    ensures
        after_arrivals(operation, feed(hosts)).spawned == hosts,
        after_arrivals(operation, feed(hosts)).joined == 0,
        after_arrivals(operation, feed(hosts)).stage == if hosts.len() == 0 {
            DispatchStage::Concluded
        } else {
            DispatchStage::Joining
        },
{
    let arrived = feed(hosts).drop_last();
    lemma_hosts_alone(arrived, hosts);
    lemma_spawned_before_end(operation, arrived);
    assert(feed(hosts).last() == Arrival::End);
}

/// Where only connected hosts arrived, no end marker did, and the hosts
/// before the end are all of them.
proof fn lemma_hosts_alone(arrived: Seq<Arrival>, hosts: Seq<HostView>)
    requires
        arrived.len() == hosts.len(),
        forall|i: int| 0 <= i < hosts.len() ==> arrived[i] == Arrival::Host(hosts[i]),
    ensures
        !has_end(arrived),
        hosts_before_end(arrived) == hosts,
    decreases arrived.len(),
{
    if arrived.len() > 0 {
        lemma_hosts_alone(arrived.drop_last(), hosts.drop_last());
        assert(hosts.drop_last().push(hosts.last()) == hosts);
    }
}

/// A host for which the operation was started arrived as a connected host:
/// no operation is started for a host that was not handed on.
pub proof fn lemma_spawned_arrived(arrivals: Seq<Arrival>, k: int)
    requires
        0 <= k < hosts_before_end(arrivals).len(),
    ensures
        exists|i: int|
            0 <= i < arrivals.len() && #[trigger] arrivals[i] == Arrival::Host(
                hosts_before_end(arrivals)[k],
            ),
    decreases arrivals.len(),
{
    let earlier = arrivals.drop_last();
    if k < hosts_before_end(earlier).len() {
        lemma_spawned_arrived(earlier, k);
        let i = choose|i: int|
            0 <= i < earlier.len() && #[trigger] earlier[i] == Arrival::Host(
                hosts_before_end(earlier)[k],
            );
        assert(arrivals[i] == earlier[i]);
    } else {
        assert(arrivals[arrivals.len() - 1] == Arrival::Host(hosts_before_end(arrivals)[k]));
    }
}

/// Once the waiting has begun, the run is concluded exactly when as many
/// operations as were started have been waited for, none of them lost, and it
/// is aborted exactly when one of them was lost before that.
pub proof fn lemma_concluded_after_all(side: DispatchView, ends: Seq<bool>)
    requires
        side.stage == DispatchStage::Joining,
        side.joined == 0,
        side.spawned.len() > 0,
    ensures
        after_joins(side, ends).spawned == side.spawned,
        after_joins(side, ends).operation == side.operation,
        consistent(after_joins(side, ends)),
        after_joins(side, ends).stage != DispatchStage::Receiving,
        after_joins(side, ends).joined <= ends.len(),
        forall|k: int| 0 <= k < after_joins(side, ends).joined ==> !ends[k],
        after_joins(side, ends).stage == DispatchStage::Joining ==> after_joins(side, ends).joined
            == ends.len(),
        after_joins(side, ends).stage == DispatchStage::Aborted ==> after_joins(side, ends).joined
            < ends.len() && ends[after_joins(side, ends).joined as int],
        after_joins(side, ends).stage == DispatchStage::Concluded <==> side.spawned.len()
            <= ends.len() && forall|k: int| 0 <= k < side.spawned.len() ==> !ends[k],
    decreases ends.len(),
{
    if ends.len() > 0 {
        lemma_concluded_after_all(side, ends.drop_last());
        let before = after_joins(side, ends.drop_last());
        assert forall|k: int| 0 <= k < before.joined implies !ends[k] by {
            assert(ends[k] == ends.drop_last()[k]);
        }
        if before.stage == DispatchStage::Aborted {
            assert(ends[before.joined as int] == ends.drop_last()[before.joined as int]);
        }
        let after = after_joins(side, ends);
        if side.spawned.len() <= ends.len() && (forall|k: int|
            0 <= k < side.spawned.len() ==> !ends[k]) {
            if after.stage == DispatchStage::Aborted {
                assert(!ends[after.joined as int]);
            }
        }
    }
}

/// The work for one host: the session to it and the operation to run on it.
pub struct HostTask<S> {
    pub session: ConnectedSession<S>,
    pub operation: Operation,
}

/// What to do after an attempt to receive.
pub enum Dispatch<S> {
    /// Start the work for one host, apart from all others, and go on receiving.
    Spawn(HostTask<S>),
    /// Go on receiving.
    Receive,
    /// Stop receiving and wait for the tasks that were started.
    Join,
    /// The run is over: nothing was started, so nothing is waited for.
    Conclude,
    /// Nothing: the receiving had ended already.
    Idle,
}

/// What to do on having waited for one operation.
#[derive(Debug)]
pub struct JoinStep {
    /// The line to log: the failure of the operation, if it failed.
    pub log: Option<LogLine>,
    /// The failure that ends the run, if the operation's task was lost.
    pub fatal: Option<RunError>,
    /// Where the dispatching side stands now.
    pub stage: DispatchStage,
}

/// The dispatching side of a run.
#[derive(Debug)]
pub struct Dispatcher {
    operation: Operation,
    stage: DispatchStage,
    spawned: Vec<SessionInfo>,
    joined: usize,
}

impl View for Dispatcher {
    type V = DispatchView;

    closed spec fn view(&self) -> DispatchView {
        DispatchView {
            operation: self.operation@,
            stage: self.stage,
            spawned: host_views(self.spawned@),
            joined: self.joined as nat,
        }
    }
}

impl Dispatcher {
    /// Starts the dispatching side of a run of `operation`.
    pub fn begin(operation: Operation) -> (side: Dispatcher)
        ensures
            side@ == dispatch_start(operation@),
            consistent(side@),
    {
        let side = Dispatcher {
            operation,
            stage: DispatchStage::Receiving,
            spawned: Vec::new(),
            joined: 0,
        };
        assert(side@.spawned == Seq::<HostView>::empty());
        side
    }

    /// Where the dispatching side stands.
    pub fn stage(&self) -> (stage: DispatchStage)
        ensures
            stage == self@.stage,
    {
        self.stage
    }

    /// For how many hosts the operation was started.
    pub fn started(&self) -> (count: usize)
        ensures
            count == self@.spawned.len(),
    {
        self.spawned.len()
    }

    /// Takes in what one attempt to receive brought: `None` where the channel
    /// was closed. While receiving, each connected host gets exactly one task,
    /// which owns the session and runs the run's operation, and the end
    /// marker ends the receiving.
    pub fn received<S>(&mut self, slot: Option<Slot<S>>) -> (action: Dispatch<S>)
        ensures
            final(self)@ == after_arrival(old(self)@, arrival_of(slot)),
            consistent(old(self)@) ==> consistent(final(self)@),
            old(self)@.stage != DispatchStage::Receiving ==> action is Idle,
            old(self)@.stage == DispatchStage::Receiving ==> match slot {
                Some(Slot::Connected(session)) => action matches Dispatch::Spawn(task)
                    && task.session == session && task.operation@ == old(self)@.operation,
                Some(Slot::EndOfConnections) => if old(self)@.spawned.len() == 0 {
                    action is Conclude
                } else {
                    action is Join
                },
                None => action is Receive,
            },
    {
        match self.stage {
            DispatchStage::Receiving => match slot {
                Some(Slot::Connected(session)) => {
                    let ghost before = self.spawned@;
                    self.spawned.push(session.host.clone());
                    assert(host_views(self.spawned@) == host_views(before).push(session.host@));
                    Dispatch::Spawn(HostTask { session, operation: self.operation.clone() })
                },
                Some(Slot::EndOfConnections) => {
                    if self.spawned.len() == 0 {
                        self.stage = DispatchStage::Concluded;
                        Dispatch::Conclude
                    } else {
                        self.stage = DispatchStage::Joining;
                        Dispatch::Join
                    }
                },
                None => Dispatch::Receive,
            },
            _ => Dispatch::Idle,
        }
    }

    /// Takes in the end of one more operation. A failed operation is logged,
    /// with its host's identity, and the waiting goes on. A lost task ends the
    /// run. The run is concluded exactly when this was the last operation
    /// waited for.
    pub fn joined(&mut self, end: TaskEnd) -> (step: JoinStep)
        ensures
            final(self)@ == after_join(old(self)@, end is Lost),
            consistent(old(self)@) ==> consistent(final(self)@),
            step.stage == final(self)@.stage,
            match end {
                TaskEnd::Failed(error) if awaited(old(self)@) => step.log is Some
                    && step.log->Some_0.level == failure_level(old(self)@.operation)
                    && step.log->Some_0.message@ == failure_prefix(old(self)@.operation)
                    + error.message(),
                _ => step.log is None,
            },
            match end {
                TaskEnd::Lost(reason) if awaited(old(self)@) => step.fatal matches Some(
                    RunError::TaskSubstrate(text),
                ) && text@ == reason@,
                _ => step.fatal is None,
            },
    {
        if self.stage != DispatchStage::Joining || self.joined >= self.spawned.len() {
            return JoinStep { log: None, fatal: None, stage: self.stage };
        }
        match end {
            TaskEnd::Lost(reason) => {
                self.stage = DispatchStage::Aborted;
                JoinStep {
                    log: None,
                    fatal: Some(RunError::TaskSubstrate(reason)),
                    stage: DispatchStage::Aborted,
                }
            },
            TaskEnd::Failed(error) => {
                let log = Some(failure_record(&self.operation, &error));
                let stage = self.count_one();
                JoinStep { log, fatal: None, stage }
            },
            TaskEnd::Completed => {
                let stage = self.count_one();
                JoinStep { log: None, fatal: None, stage }
            },
        }
    }

    /// Counts one more operation as waited for.
    fn count_one(&mut self) -> (stage: DispatchStage)
        requires
            awaited(old(self)@),
        ensures
            final(self)@ == after_join(old(self)@, false),
            stage == final(self)@.stage,
    {
        assert(self.joined < self.spawned.len());
        self.joined = self.joined + 1;
        if self.joined == self.spawned.len() {
            self.stage = DispatchStage::Concluded;
        }
        self.stage
    }

    /// The hosts for which the operation was started, in the order received.
    pub fn spawned_hosts(&self) -> (hosts: Vec<SessionInfo>)
        ensures
            host_views(hosts@) == self@.spawned,
    {
        let mut hosts: Vec<SessionInfo> = Vec::new();
        let mut i: usize = 0;
        while i < self.spawned.len()
            invariant
                i <= self.spawned.len(),
                hosts.len() == i,
                forall|k: int| 0 <= k < i ==> hosts[k]@ == self.spawned[k]@,
            decreases self.spawned.len() - i,
        {
            hosts.push(self.spawned[i].clone());
            i += 1;
        }
        assert(host_views(hosts@) == host_views(self.spawned@));
        hosts
    }
}

} // verus!
