//! One attempt to reach a host: open the connection, shake hands,
//! authenticate, hand the session on. The attempt says what to do next; the
//! caller does it and says how it went.

use crate::channel::{ConnectedSession, Slot};
use crate::error::{annotated, HostError};
use crate::server::{is_socket_address, socket_address, HostView, SessionInfo};
use vstd::prelude::*;

verus! {

/// How many seconds opening a connection may take.
pub const CONNECT_TIMEOUT_SECS: u64 = 3;

/// Where an attempt stands: what it is waiting for.
#[derive(Debug, Clone, Copy, PartialEq, Eq, Structural)]
pub enum ConnectStage {
    /// The connection is being opened.
    Connecting,
    /// The protocol handshake is under way.
    Handshaking,
    /// The password is being checked.
    Authenticating,
    /// The session is being pushed into the channel.
    Publishing,
    /// The attempt is over.
    Finished,
}

/// The kind of thing an attempt asks for.
#[derive(Debug, Clone, Copy, PartialEq, Eq, Structural)]
pub enum ConnectStep {
    Open,
    Handshake,
    Authenticate,
    Publish,
    Complete,
    Fail,
    Idle,
}

/// What an attempt asks for, with what is needed to do it.
#[derive(Debug)]
pub enum ConnectAction {
    /// Open a connection to `address`, giving up after `timeout_secs` seconds.
    Open { address: String, timeout_secs: u64 },
    /// Perform the protocol handshake on the connection.
    Handshake,
    /// Authenticate with this user and password.
    Authenticate { user: String, password: String },
    /// Push the session, as a connected host, into the channel.
    Publish,
    /// End the attempt: the host was handed on.
    Complete,
    /// End the attempt with this failure: the host is left out of the run.
    Fail(HostError),
    /// Nothing: the attempt was over already.
    Idle,
}

impl ConnectAction {
    /// The kind of this action.
    pub open spec fn step(self) -> ConnectStep {
        match self {
            ConnectAction::Open { .. } => ConnectStep::Open,
            ConnectAction::Handshake => ConnectStep::Handshake,
            ConnectAction::Authenticate { .. } => ConnectStep::Authenticate,
            ConnectAction::Publish => ConnectStep::Publish,
            ConnectAction::Complete => ConnectStep::Complete,
            ConnectAction::Fail(_) => ConnectStep::Fail,
            ConnectAction::Idle => ConnectStep::Idle,
        }
    }
}

/// Where an attempt stands after what it asked for at `stage` went well or
/// not. Any failure ends it; so does a session that was handed on.
pub open spec fn next_stage(stage: ConnectStage, succeeded: bool) -> ConnectStage {
    if !succeeded {
        ConnectStage::Finished
    } else {
        match stage {
            ConnectStage::Connecting => ConnectStage::Handshaking,
            ConnectStage::Handshaking => ConnectStage::Authenticating,
            ConnectStage::Authenticating => ConnectStage::Publishing,
            ConnectStage::Publishing => ConnectStage::Finished,
            ConnectStage::Finished => ConnectStage::Finished,
        }
    }
}

/// What an attempt asks for after what it asked for at `stage` went well or
/// not.
pub open spec fn step_after(stage: ConnectStage, succeeded: bool) -> ConnectStep {
    match stage {
        ConnectStage::Finished => ConnectStep::Idle,
        _ => if !succeeded {
            ConnectStep::Fail
        } else {
            match stage {
                ConnectStage::Connecting => ConnectStep::Handshake,
                ConnectStage::Handshaking => ConnectStep::Authenticate,
                ConnectStage::Authenticating => ConnectStep::Publish,
                _ => ConnectStep::Complete,
            }
        },
    }
}

/// Where an attempt stands after it was told, in turn, how each thing it
/// asked for went.
pub open spec fn stage_after(results: Seq<bool>) -> ConnectStage
    decreases results.len(),
{
    if results.len() == 0 {
        ConnectStage::Connecting
    } else {
        next_stage(stage_after(results.drop_last()), results.last())
    }
}

/// What an attempt asked for on being told the `i`-th result.
pub open spec fn step_issued(results: Seq<bool>, i: int) -> ConnectStep {
    step_after(stage_after(results.take(i)), results[i])
}

/// While everything went well, an attempt moves one stage per result.
pub proof fn lemma_stage_while_well(results: Seq<bool>)
    requires
        forall|k: int| 0 <= k < results.len() ==> results[k],
    ensures
        stage_after(results) == if results.len() == 0 {
            ConnectStage::Connecting
        } else if results.len() == 1 {
            ConnectStage::Handshaking
        } else if results.len() == 2 {
            ConnectStage::Authenticating
        } else if results.len() == 3 {
            ConnectStage::Publishing
        } else {
            ConnectStage::Finished
        },
    decreases results.len(),
{
    if results.len() > 0 {
        lemma_stage_while_well(results.drop_last());
    }
}

/// An attempt stands at the push exactly when it was told three results and
/// all of them were good: connecting, the handshake and the authentication.
pub proof fn lemma_publishing_after_success(results: Seq<bool>)
    ensures
        stage_after(results) == ConnectStage::Publishing <==> results.len() == 3 && results[0]
            && results[1] && results[2],
{
    if exists|k: int| 0 <= k < results.len() && !results[k] {
        let k = choose|k: int| 0 <= k < results.len() && !results[k];
        lemma_failure_ends(results, k);
    } else {
        lemma_stage_while_well(results);
    }
}

/// After a failure an attempt is over, whatever it is told later.
pub proof fn lemma_failure_ends(results: Seq<bool>, i: int)
    requires
        0 <= i < results.len(),
        !results[i],
    ensures
        stage_after(results) == ConnectStage::Finished,
    decreases results.len(),
{
    if i < results.len() - 1 {
        lemma_failure_ends(results.drop_last(), i);
    }
}

/// An attempt asks to push its session into the channel only as the answer to
/// the third result, and only when connecting, the handshake and the
/// authentication all went well.
pub proof fn lemma_publish_after_success(results: Seq<bool>, i: int)
    requires
        0 <= i < results.len(),
        step_issued(results, i) == ConnectStep::Publish,
    ensures
        i == 2,
        results[0] && results[1] && results[2],
{
    let before = results.take(i);
    if exists|k: int| 0 <= k < before.len() && !before[k] {
        let k = choose|k: int| 0 <= k < before.len() && !before[k];
        lemma_failure_ends(before, k);
    } else {
        lemma_stage_while_well(before);
        assert(before[0] == results[0]);
        assert(before[1] == results[1]);
    }
}

/// An attempt completes only as the answer to the fourth result, and only when
/// everything before, the push into the channel included, went well.
pub proof fn lemma_complete_after_publish(results: Seq<bool>, i: int)
    requires
        0 <= i < results.len(),
        step_issued(results, i) == ConnectStep::Complete,
    ensures
        i == 3,
        results[0] && results[1] && results[2] && results[3],
{
    let before = results.take(i);
    if exists|k: int| 0 <= k < before.len() && !before[k] {
        let k = choose|k: int| 0 <= k < before.len() && !before[k];
        lemma_failure_ends(before, k);
    } else {
        lemma_stage_while_well(before);
        assert(before[0] == results[0]);
        assert(before[1] == results[1]);
        assert(before[2] == results[2]);
    }
}

/// An attempt that reports a failure hands its host on neither before nor
/// after: where it fails before the push it never asks for the push, and it
/// never completes.
pub proof fn lemma_failed_attempt_hands_nothing_on(results: Seq<bool>, i: int, j: int)
    requires
        0 <= i < results.len(),
        0 <= j < results.len(),
        step_issued(results, i) == ConnectStep::Fail,
    ensures
        step_issued(results, j) != ConnectStep::Complete,
        i < 3 ==> step_issued(results, j) != ConnectStep::Publish,
{
    assert(!results[i]);
    if step_issued(results, j) == ConnectStep::Complete {
        lemma_complete_after_publish(results, j);
        if i > 3 {
            let head = results.take(i);
            assert(head.take(4) == results.take(4));
            lemma_stage_while_well(results.take(4));
            lemma_later_stays_finished(head, 4);
        }
    }
    if i < 3 && step_issued(results, j) == ConnectStep::Publish {
        lemma_publish_after_success(results, j);
    }
}

/// Once over, an attempt stays over.
pub proof fn lemma_later_stays_finished(results: Seq<bool>, n: int)
    requires
        0 <= n <= results.len(),
        stage_after(results.take(n)) == ConnectStage::Finished,
    ensures
        stage_after(results) == ConnectStage::Finished,
    decreases results.len() - n,
{
    if n < results.len() {
        assert(results.take(n + 1).drop_last() == results.take(n));
        lemma_later_stays_finished(results, n + 1);
    } else {
        assert(results.take(n) == results);
    }
}

/// An attempt to connect to one host.
#[derive(Debug)]
pub struct ConnectAttempt {
    host: SessionInfo,
    stage: ConnectStage,
}

impl ConnectAttempt {
    /// The host that this attempt is for.
    pub closed spec fn host(&self) -> HostView {
        self.host@
    }

    /// Where this attempt stands.
    pub closed spec fn stage(&self) -> ConnectStage {
        self.stage
    }

    /// Starts an attempt for `host`, which can be reached at a socket
    /// address: it asks for a connection to that address, to be opened within
    /// the time allowed.
    pub fn begin(host: SessionInfo) -> (started: (ConnectAttempt, ConnectAction))
        requires
            is_socket_address(host@),
        ensures
            started.0.host() == host@,
            started.0.stage() == ConnectStage::Connecting,
            started.1 matches ConnectAction::Open { address, timeout_secs } && address@
                == socket_address(host@) && timeout_secs == CONNECT_TIMEOUT_SECS,
    {
        let address = host.to_socket_addrs();
        (
            ConnectAttempt { host, stage: ConnectStage::Connecting },
            ConnectAction::Open { address, timeout_secs: CONNECT_TIMEOUT_SECS },
        )
    }

    /// Where this attempt stands.
    pub fn current_stage(&self) -> (stage: ConnectStage)
        ensures
            stage == self.stage(),
    {
        self.stage
    }

    /// Takes in how the last thing asked for went, `Err` with the cause where
    /// it failed, and says what comes next. A failure ends the attempt with
    /// the cause and the host's identity; the session is pushed only after the
    /// authentication went well.
    pub fn advance(&mut self, outcome: Result<(), String>) -> (action: ConnectAction)
        ensures
            final(self).host() == old(self).host(),
            final(self).stage() == next_stage(old(self).stage(), outcome is Ok),
            action.step() == step_after(old(self).stage(), outcome is Ok),
            action matches ConnectAction::Authenticate { user, password } ==> user@ == old(
                self,
            ).host().user && password@ == old(self).host().password,
            action matches ConnectAction::Fail(error) ==> error is Connect && error.message()
                == annotated(outcome->Err_0@, old(self).host()),
    {
        match self.stage {
            ConnectStage::Finished => ConnectAction::Idle,
            stage => match outcome {
                Err(cause) => {
                    self.stage = ConnectStage::Finished;
                    ConnectAction::Fail(HostError::connect(cause.as_str(), &self.host))
                },
                Ok(_) => match stage {
                    ConnectStage::Connecting => {
                        self.stage = ConnectStage::Handshaking;
                        ConnectAction::Handshake
                    },
                    ConnectStage::Handshaking => {
                        self.stage = ConnectStage::Authenticating;
                        ConnectAction::Authenticate {
                            user: self.host.user.clone(),
                            password: self.host.password.clone(),
                        }
                    },
                    ConnectStage::Authenticating => {
                        self.stage = ConnectStage::Publishing;
                        ConnectAction::Publish
                    },
                    _ => {
                        self.stage = ConnectStage::Finished;
                        ConnectAction::Complete
                    },
                },
            },
        }
    }

    /// The slot that hands this attempt's host on, with the transport that
    /// was opened to it. Only an attempt that stands at the push gives one;
    /// any other hands the transport back.
    pub fn publish<S>(&self, transport: S) -> (made: Result<Slot<S>, S>)
        ensures
            match made {
                Ok(slot) => slot matches Slot::Connected(session) && session.host@ == self.host()
                    && session.transport == transport && self.stage()
                    == ConnectStage::Publishing,
                Err(returned) => self.stage() != ConnectStage::Publishing && returned == transport,
            },
    {
        match self.stage {
            ConnectStage::Publishing => Ok(
                Slot::Connected(ConnectedSession { host: self.host.clone(), transport }),
            ),
            _ => Err(transport),
        }
    }
}

} // verus!
