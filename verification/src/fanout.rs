//! The connecting side of a run: one attempt per selected host, all waited
//! for, and then the one end marker.

use crate::channel::TaskEnd;
use crate::error::RunError;
use crate::report::{connect_failure_record, Level, LogLine};
use vstd::prelude::*;

verus! {

/// The state of the connecting side, as mathematical values.
pub struct FanView {
    /// How many attempts were launched.
    pub total: nat,
    /// How many of them have been waited for to their end.
    pub joined: nat,
    /// Whether an attempt was lost, which ends the run.
    pub aborted: bool,
}

/// Whether the end marker has been pushed: the run goes on, and every attempt
/// has been waited for.
pub open spec fn marker_pushed(fan: FanView) -> bool {
    !fan.aborted && fan.joined == fan.total
}

/// Whether an attempt is still being waited for.
pub open spec fn waiting(fan: FanView) -> bool {
    !fan.aborted && fan.joined < fan.total
}

/// The state after one more attempt was waited for; `lost` says that the
/// attempt itself was lost. A lost attempt ends the run. Nothing changes once
/// no attempt is waited for.
pub open spec fn fan_next(fan: FanView, lost: bool) -> FanView {
    if !waiting(fan) {
        fan
    } else if lost {
        FanView { aborted: true, ..fan }
    } else {
        FanView { joined: fan.joined + 1, ..fan }
    }
}

/// Whether the end marker is pushed on taking in one more attempt.
pub open spec fn pushes_end(fan: FanView, lost: bool) -> bool {
    !marker_pushed(fan) && marker_pushed(fan_next(fan, lost))
}

/// The state at the start of a run with `total` attempts.
pub open spec fn fan_start(total: nat) -> FanView {
    FanView { total, joined: 0, aborted: false }
}

/// The state after the attempts were waited for whose ends are `ends`, in
/// turn; `true` stands for a lost attempt.
pub open spec fn fan_after(total: nat, ends: Seq<bool>) -> FanView
    decreases ends.len(),
{
    if ends.len() == 0 {
        fan_start(total)
    } else {
        fan_next(fan_after(total, ends.drop_last()), ends.last())
    }
}

/// How many end markers were pushed from the start of a run up to the point
/// where `ends` were taken in.
pub open spec fn markers(total: nat, ends: Seq<bool>) -> nat
    decreases ends.len(),
{
    if ends.len() == 0 {
        if total == 0 {
            1
        } else {
            0
        }
    } else {
        markers(total, ends.drop_last()) + if pushes_end(
            fan_after(total, ends.drop_last()),
            ends.last(),
        ) {
            1nat
        } else {
            0nat
        }
    }
}

/// The state of a run is fixed by its first `total` ends: while none of them
/// is lost, that many attempts count as waited for; the first lost one ends
/// the run.
pub proof fn lemma_fan_after(total: nat, ends: Seq<bool>)
    ensures
        fan_after(total, ends).total == total,
        fan_after(total, ends).joined <= total,
        fan_after(total, ends).joined <= ends.len(),
        forall|k: int| 0 <= k < fan_after(total, ends).joined ==> !ends[k],
        fan_after(total, ends).aborted <==> fan_after(total, ends).joined < total && fan_after(
            total,
            ends,
        ).joined < ends.len() && ends[fan_after(total, ends).joined as int],
        !fan_after(total, ends).aborted && fan_after(total, ends).joined < total ==> fan_after(
            total,
            ends,
        ).joined == ends.len(),
        fan_after(total, ends).aborted ==> fan_after(total, ends).joined < total,
    decreases ends.len(),
{
    if ends.len() > 0 {
        lemma_fan_after(total, ends.drop_last());
        let before = fan_after(total, ends.drop_last());
        assert forall|k: int| 0 <= k < before.joined implies !ends[k] by {
            assert(ends[k] == ends.drop_last()[k]);
        }
        if before.aborted {
            assert(ends[before.joined as int] == ends.drop_last()[before.joined as int]);
        }
    }
}

/// From the start of a run to any later point exactly one end marker was
/// pushed if the marker counts as pushed there, and none otherwise: there is
/// never a second one.
pub proof fn lemma_marker_once(total: nat, ends: Seq<bool>)
    ensures
        markers(total, ends) == if marker_pushed(fan_after(total, ends)) {
            1nat
        } else {
            0nat
        },
        markers(total, ends) <= 1,
    decreases ends.len(),
{
    if ends.len() > 0 {
        lemma_marker_once(total, ends.drop_last());
    }
}

/// The end marker counts as pushed exactly when the first `total` attempts
/// that were waited for all came to their end, none lost: it is pushed only
/// after every attempt has finished.
pub proof fn lemma_marker_after_all(total: nat, ends: Seq<bool>)
    ensures
        marker_pushed(fan_after(total, ends)) <==> total <= ends.len() && forall|k: int|
            0 <= k < total ==> !ends[k],
{
    lemma_fan_after(total, ends);
}

/// The step at which the end marker is pushed is the one that takes in the
/// last attempt: `total` attempts have then finished.
pub proof fn lemma_marker_step(total: nat, ends: Seq<bool>, i: int)
    requires
        0 <= i < ends.len(),
        pushes_end(fan_after(total, ends.take(i)), ends[i]),
    ensures
        i + 1 == total,
        forall|k: int| 0 <= k <= i ==> !ends[k],
{
    lemma_fan_after(total, ends.take(i));
    assert forall|k: int| 0 <= k < i implies !ends[k] by {
        assert(ends[k] == ends.take(i)[k]);
    }
}

/// What to do on having waited for one attempt.
#[derive(Debug)]
pub struct FanStep {
    /// The line to log: the failure of the attempt, if it failed.
    pub log: Option<LogLine>,
    /// Whether to push the end marker now.
    pub push_end: bool,
    /// The failure that ends the run, if the attempt was lost.
    pub fatal: Option<RunError>,
}

/// The connecting side of a run: it counts the attempts that were waited for
/// and says when the end marker is due.
#[derive(Debug)]
pub struct FanOut {
    total: usize,
    joined: usize,
    aborted: bool,
}

impl View for FanOut {
    type V = FanView;

    closed spec fn view(&self) -> FanView {
        FanView { total: self.total as nat, joined: self.joined as nat, aborted: self.aborted }
    }
}

impl FanOut {
    #[verifier::type_invariant]
    spec fn counted(self) -> bool {
        self.joined <= self.total
    }

    /// Starts the connecting side for `total` attempts. With no attempt to
    /// wait for, the end marker is due at once.
    pub fn begin(total: usize) -> (started: (FanOut, FanStep))
        ensures
            started.0@ == fan_start(total as nat),
            started.1.push_end == (total == 0),
            started.1.log is None,
            started.1.fatal is None,
    {
        (
            FanOut { total, joined: 0, aborted: false },
            FanStep { log: None, push_end: total == 0, fatal: None },
        )
    }

    /// Whether the end marker has been pushed.
    pub fn finished(&self) -> (done: bool)
        ensures
            done == marker_pushed(self@),
    {
        !self.aborted && self.joined == self.total
    }

    /// Takes in the end of one more attempt. A failed attempt is logged, with
    /// its host's identity, and the run goes on. A lost attempt ends the run:
    /// no marker is pushed then. The marker is due exactly when this was the
    /// last attempt waited for.
    pub fn joined(&mut self, end: TaskEnd) -> (step: FanStep)
        ensures
            final(self)@ == fan_next(old(self)@, end is Lost),
            step.push_end == pushes_end(old(self)@, end is Lost),
            match end {
                TaskEnd::Failed(error) if waiting(old(self)@) => step.log is Some
                    && step.log->Some_0.level == Level::Error && step.log->Some_0.message@
                    == error.message(),
                _ => step.log is None,
            },
            match end {
                TaskEnd::Lost(reason) if waiting(old(self)@) => step.fatal matches Some(
                    RunError::TaskSubstrate(text),
                ) && text@ == reason@,
                _ => step.fatal is None,
            },
    {
        proof {
            use_type_invariant(&*self);
        }
        if self.aborted || self.joined == self.total {
            return FanStep { log: None, push_end: false, fatal: None };
        }
        match end {
            TaskEnd::Lost(reason) => {
                self.aborted = true;
                FanStep { log: None, push_end: false, fatal: Some(RunError::TaskSubstrate(reason)) }
            },
            TaskEnd::Failed(error) => {
                self.joined = self.joined + 1;
                FanStep {
                    log: Some(connect_failure_record(&error)),
                    push_end: self.joined == self.total,
                    fatal: None,
                }
            },
            TaskEnd::Completed => {
                self.joined = self.joined + 1;
                FanStep { log: None, push_end: self.joined == self.total, fatal: None }
            },
        }
    }
}

} // verus!
