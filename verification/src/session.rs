//! Sending a magic packet, one transport step at a time.
//!
//! A [`Session`] holds the packet and its destination and knows how far the
//! transport has come. It touches no socket itself: the caller performs the
//! step that [`Session::next_action`] names and reports how it went with
//! [`Session::advance`]. The first failure ends the session; nothing is
//! tried twice.

use crate::destination::{Destination, DestinationView};
use crate::packet::{magic_packet, magic_packet_bytes};
use vstd::prelude::*;
use vstd::string::*;

verus! {

/// A step that the transport performs on behalf of a session.
#[derive(Debug, Clone, Copy, PartialEq, Eq, Structural)]
pub enum TransportStep {
    /// Acquire a datagram socket bound to an ephemeral port on the wildcard
    /// address.
    OpenSocket,
    /// Ask for permission to send to broadcast addresses.
    EnableBroadcast,
    /// Send the packet to the destination as a single datagram.
    Send,
}

/// What the caller of a session does next.
#[derive(Debug, Clone, Copy, PartialEq, Eq, Structural)]
pub enum Action {
    /// Perform the given step and report its outcome.
    Perform(TransportStep),
    /// Nothing is left to do: the session has ended.
    Stop,
}

/// A transport step that failed, with the cause that the system gave.
#[derive(Debug, PartialEq, Eq)]
pub struct TransportError {
    /// The step that failed.
    pub step: TransportStep,
    /// The system's description of the error.
    pub cause: String,
}

/// How far a session has come.
#[derive(Debug, PartialEq, Eq)]
pub enum Stage {
    /// The packet is built; no socket is open yet.
    Built,
    /// The socket is open.
    SocketOpen,
    /// The socket may send to broadcast addresses.
    BroadcastEnabled,
    /// The packet has been handed to the network. The session has ended.
    Sent,
    /// A step failed. The session has ended.
    Failed(TransportError),
}

impl Clone for TransportError {
    fn clone(&self) -> (r: TransportError)
        ensures
            r == *self,
    {
        TransportError { step: self.step, cause: self.cause.clone() }
    }
}

impl Clone for Stage {
    fn clone(&self) -> (r: Stage)
        ensures
            r == *self,
    {
        match self {
            Stage::Built => Stage::Built,
            Stage::SocketOpen => Stage::SocketOpen,
            Stage::BroadcastEnabled => Stage::BroadcastEnabled,
            Stage::Sent => Stage::Sent,
            Stage::Failed(error) => Stage::Failed(error.clone()),
        }
    }
}

/// The report for a failure of `step` with the given cause.
pub open spec fn transport_message(step: TransportStep, cause: Seq<char>) -> Seq<char> {
    match step {
        TransportStep::OpenSocket => "Error: Failed to create UDP socket: "@ + cause + "."@,
        TransportStep::EnableBroadcast => "Error: Request for broadcast send permission failed: "@
            + cause,
        TransportStep::Send => "Error: Failed to send packet: "@ + cause,
    }
}

/// The session has ended at `stage`.
pub open spec fn is_terminal(stage: Stage) -> bool {
    stage is Sent || stage is Failed
}

/// What the caller does at `stage`.
pub open spec fn action_at(stage: Stage) -> Action {
    match stage {
        Stage::Built => Action::Perform(TransportStep::OpenSocket),
        Stage::SocketOpen => Action::Perform(TransportStep::EnableBroadcast),
        Stage::BroadcastEnabled => Action::Perform(TransportStep::Send),
        Stage::Sent => Action::Stop,
        Stage::Failed(_) => Action::Stop,
    }
}

/// The stage that a session reaches when `step` has succeeded.
pub open spec fn stage_reached_by(step: TransportStep) -> Stage {
    match step {
        TransportStep::OpenSocket => Stage::SocketOpen,
        TransportStep::EnableBroadcast => Stage::BroadcastEnabled,
        TransportStep::Send => Stage::Sent,
    }
}

/// The stage that follows `stage` when the step asked for at `stage` ended
/// in `outcome`. A success leads one stage on, a failure to
/// [`Stage::Failed`] with the step and its cause, and a session that has
/// ended stays where it is.
pub open spec fn stage_after(stage: Stage, outcome: Result<(), String>) -> Stage {
    match action_at(stage) {
        Action::Stop => stage,
        Action::Perform(step) => match outcome {
            Ok(_) => stage_reached_by(step),
            Err(cause) => Stage::Failed(TransportError { step, cause }),
        },
    }
}

/// The stage reached from `stage` when the steps asked for end in
/// `outcomes`, one after the other.
pub open spec fn stage_after_all(stage: Stage, outcomes: Seq<Result<(), String>>) -> Stage
    decreases outcomes.len(),
{
    if outcomes.len() == 0 {
        stage
    } else {
        stage_after(stage_after_all(stage, outcomes.drop_last()), outcomes.last())
    }
}

/// How often the caller is asked to send the packet while a session that
/// starts at `stage` takes in `outcomes`: once for every outcome that
/// answers a request to send.
pub open spec fn sends_asked(stage: Stage, outcomes: Seq<Result<(), String>>) -> nat
    decreases outcomes.len(),
{
    if outcomes.len() == 0 {
        0
    } else {
        let before = stage_after_all(stage, outcomes.drop_last());
        let asked: nat = if action_at(before) == Action::Perform(TransportStep::Send) {
            1
        } else {
            0
        };
        sends_asked(stage, outcomes.drop_last()) + asked
    }
}

/// Where a new session stands after `outcomes`: one stage on for each
/// success, up to [`Stage::Sent`], unless one of the first three outcomes is
/// a failure, in which case it stands at the first of them.
pub open spec fn run_result(outcomes: Seq<Result<(), String>>) -> Stage {
    if outcomes.len() == 0 {
        Stage::Built
    } else if outcomes[0] is Err {
        Stage::Failed(TransportError { step: TransportStep::OpenSocket, cause: outcomes[0]->Err_0 })
    } else if outcomes.len() == 1 {
        Stage::SocketOpen
    } else if outcomes[1] is Err {
        Stage::Failed(
            TransportError { step: TransportStep::EnableBroadcast, cause: outcomes[1]->Err_0 },
        )
    } else if outcomes.len() == 2 {
        Stage::BroadcastEnabled
    } else if outcomes[2] is Err {
        Stage::Failed(TransportError { step: TransportStep::Send, cause: outcomes[2]->Err_0 })
    } else {
        Stage::Sent
    }
}

/// A session that has ended asks for nothing more and stays as it is,
/// whatever is reported to it: a failure is never followed by another try.
pub proof fn lemma_ended_session_stays(stage: Stage, outcome: Result<(), String>)
    ensures
        is_terminal(stage) <==> action_at(stage) == Action::Stop,
        is_terminal(stage) ==> stage_after(stage, outcome) == stage,
        !is_terminal(stage) && outcome is Err ==> stage_after(stage, outcome) is Failed,
        !is_terminal(stage) && outcome is Ok ==> !(stage_after(stage, outcome) is Failed),
{
}

/// A session runs straight through its stages and stops at the first
/// failure. However many outcomes are reported to it, it asks for the
/// packet to be sent at most once, and exactly once if the socket was
/// opened and broadcast was permitted.
pub proof fn lemma_single_send(outcomes: Seq<Result<(), String>>)
    ensures
        stage_after_all(Stage::Built, outcomes) == run_result(outcomes),
        sends_asked(Stage::Built, outcomes) <= 1,
        sends_asked(Stage::Built, outcomes) == 1 <==> outcomes.len() >= 3 && outcomes[0] is Ok
            && outcomes[1] is Ok,
    decreases outcomes.len(),
{
    if outcomes.len() > 0 {
        let earlier = outcomes.drop_last();
        lemma_single_send(earlier);
        assert(forall|i: int| 0 <= i < earlier.len() ==> earlier[i] == outcomes[i]);
    }
}

impl TransportError {
    /// The report of this failure: which step failed, and why.
    pub fn message(&self) -> (text: String)
        ensures
            text@ == transport_message(self.step, self.cause@),
    {
        match self.step {
            TransportStep::OpenSocket => {
                let mut text = String::from_str("Error: Failed to create UDP socket: ");
                text.append(self.cause.as_str());
                text.append(".");
                text
            },
            TransportStep::EnableBroadcast => {
                let mut text = String::from_str(
                    "Error: Request for broadcast send permission failed: ",
                );
                text.append(self.cause.as_str());
                text
            },
            TransportStep::Send => {
                let mut text = String::from_str("Error: Failed to send packet: ");
                text.append(self.cause.as_str());
                text
            },
        }
    }
}

/// One attempt to send one magic packet to one destination.
#[derive(Debug)]
pub struct Session {
    stage: Stage,
    packet: [u8; 102],
    destination: Destination,
}

/// What a [`Session`] holds.
pub struct SessionView {
    pub stage: Stage,
    pub payload: Seq<u8>,
    pub destination: DestinationView,
}

impl View for Session {
    type V = SessionView;

    closed spec fn view(&self) -> SessionView {
        SessionView {
            stage: self.stage,
            payload: self.packet@,
            destination: self.destination@,
        }
    }
}

impl Session {
    /// A session that will send the magic packet for `mac` to `destination`.
    pub fn new(mac: u64, destination: Destination) -> (session: Session)
        ensures
            session@ == (SessionView {
                stage: Stage::Built,
                payload: magic_packet_bytes(mac),
                destination: destination@,
            }),
    {
        Session { stage: Stage::Built, packet: magic_packet(mac), destination }
    }

    /// How far the session has come.
    pub fn stage(&self) -> (stage: &Stage)
        ensures
            *stage == self@.stage,
    {
        &self.stage
    }

    /// The packet that the session sends.
    pub fn packet(&self) -> (packet: &[u8; 102])
        ensures
            packet@ == self@.payload,
    {
        &self.packet
    }

    /// Where the session sends its packet.
    pub fn destination(&self) -> (destination: &Destination)
        ensures
            destination@ == self@.destination,
    {
        &self.destination
    }

    /// What the caller does next.
    pub fn next_action(&self) -> (action: Action)
        ensures
            action == action_at(self@.stage),
    {
        match self.stage {
            Stage::Built => Action::Perform(TransportStep::OpenSocket),
            Stage::SocketOpen => Action::Perform(TransportStep::EnableBroadcast),
            Stage::BroadcastEnabled => Action::Perform(TransportStep::Send),
            Stage::Sent => Action::Stop,
            Stage::Failed(_) => Action::Stop,
        }
    }

    /// Records how the step that [`Session::next_action`] asked for went:
    /// `Ok` if it succeeded, and the system's description of the error if it
    /// did not. Packet and destination stay as they are.
    pub fn advance(&mut self, outcome: Result<(), String>)
        ensures
            final(self)@ == (SessionView {
                stage: stage_after(old(self)@.stage, outcome),
                payload: old(self)@.payload,
                destination: old(self)@.destination,
            }),
    {
        match self.next_action() {
            Action::Stop => {},
            Action::Perform(step) => {
                self.stage = match outcome {
                    Ok(_) => match step {
                        TransportStep::OpenSocket => Stage::SocketOpen,
                        TransportStep::EnableBroadcast => Stage::BroadcastEnabled,
                        TransportStep::Send => Stage::Sent,
                    },
                    Err(cause) => Stage::Failed(TransportError { step, cause }),
                };
            },
        }
    }
}

} // verus!
