//! The order of a session's start-up.
//!
//! A session goes from a fresh control connection to a resolved relay port:
//! identity, registration of the datagram socket, then the relay port, which
//! a host learns when its peers have asked for it and a joiner by asking.
//! The caller performs each directive and reports what came of it; the pumps
//! are started only once the port is resolved, and any failure ends the
//! start-up for good.

use vstd::prelude::*;
use crate::error::NetError;

verus! {

/// The part a peer plays in the rendezvous.
#[derive(Debug, Clone, Copy, PartialEq, Eq)]
pub enum Role {
    /// Waits for `peers` other peers to ask for it; at least one is awaited.
    Host { peers: u32 },
    /// Asks for the relay to a host it knows by identifier.
    Joiner,
}

/// How far the start-up has come.
#[derive(Debug, Clone, Copy, PartialEq, Eq)]
pub enum Phase {
    /// The control connection is open and nothing has been sent.
    Connected,
    /// The identity has been asked for.
    AwaitingIdentity,
    /// The identity is known; the datagram socket is being registered.
    Identified,
    /// Host: `remaining` peers are still to come; `first` is the relay port
    /// announced with the first one.
    AwaitingPeer { remaining: u32, first: Option<u16> },
    /// Joiner: the relay has been asked for.
    RequestingRelay,
    /// The relay port is known; the pumps may run.
    Resolved { port: u16 },
    /// The start-up was given up.
    Failed(NetError),
}

/// What the caller reports back.
#[derive(Debug, Clone, Copy, PartialEq, Eq)]
pub enum SessionEvent {
    /// The control connection is ready.
    Started,
    /// The identity phase ended with an identity.
    IdentityKnown,
    /// The registration datagram is out.
    SocketRegistered,
    /// The relay phase ended with this port.
    RelayResolved(u16),
    /// The step that was asked for failed.
    StepFailed(NetError),
    /// The caller's overall deadline has passed.
    DeadlineElapsed,
}

/// What the caller is to do next.
#[derive(Debug, Clone, Copy, PartialEq, Eq)]
pub enum Directive {
    /// Send the registration command and run the identity phase.
    SendRegister,
    /// Bind the datagram socket and send the registration datagram.
    RegisterSocket,
    /// Run the relay phase with the host's budget, sending nothing.
    AwaitPeer,
    /// Send the relay request and run the relay phase.
    RequestRelay,
    /// Start both pumps towards this relay port.
    StartPumps { port: u16 },
    /// Tear the session down.
    Abort(NetError),
    /// Nothing: the event does not belong to the current phase.
    Nothing,
}

/// Whether the start-up is over, one way or the other.
pub open spec fn is_terminal(phase: Phase) -> bool {
    phase is Resolved || phase is Failed
}

/// The port a host settles on: the one that came with the first peer.
pub open spec fn settled_port(first: Option<u16>, port: u16) -> u16 {
    match first {
        Some(p) => p,
        None => port,
    }
}

/// One step of the start-up.
pub open spec fn session_step(role: Role, phase: Phase, event: SessionEvent) -> (Phase, Directive) {
    if is_terminal(phase) {
        (phase, Directive::Nothing)
    } else {
        match event {
            SessionEvent::StepFailed(e) => (Phase::Failed(e), Directive::Abort(e)),
            SessionEvent::DeadlineElapsed => (
                Phase::Failed(NetError::Timeout),
                Directive::Abort(NetError::Timeout),
            ),
            SessionEvent::Started => if phase is Connected {
                (Phase::AwaitingIdentity, Directive::SendRegister)
            } else {
                (phase, Directive::Nothing)
            },
            SessionEvent::IdentityKnown => if phase is AwaitingIdentity {
                (Phase::Identified, Directive::RegisterSocket)
            } else {
                (phase, Directive::Nothing)
            },
            SessionEvent::SocketRegistered => if phase is Identified {
                match role {
                    Role::Host { peers } => (
                        Phase::AwaitingPeer { remaining: peers, first: None },
                        Directive::AwaitPeer,
                    ),
                    Role::Joiner => (Phase::RequestingRelay, Directive::RequestRelay),
                }
            } else {
                (phase, Directive::Nothing)
            },
            SessionEvent::RelayResolved(port) => match phase {
                Phase::AwaitingPeer { remaining, first } => {
                    let settled = settled_port(first, port);
                    if remaining <= 1 {
                        (Phase::Resolved { port: settled }, Directive::StartPumps { port: settled })
                    } else {
                        (
                            Phase::AwaitingPeer {
                                remaining: (remaining - 1) as u32,
                                first: Some(settled),
                            },
                            Directive::AwaitPeer,
                        )
                    }
                },
                Phase::RequestingRelay => (
                    Phase::Resolved { port },
                    Directive::StartPumps { port },
                ),
                _ => (phase, Directive::Nothing),
            },
        }
    }
}

/// The phase reached from `phase` when `events` are reported in order.
pub open spec fn session_run(role: Role, phase: Phase, events: Seq<SessionEvent>) -> Phase
    decreases events.len(),
{
    if events.len() == 0 {
        phase
    } else {
        session_run(role, session_step(role, phase, events[0]).0, events.skip(1))
    }
}

/// How many steps of the start-up lie behind a phase.
pub open spec fn progress(phase: Phase) -> nat {
    match phase {
        Phase::Connected => 0,
        Phase::AwaitingIdentity => 1,
        Phase::Identified => 2,
        Phase::AwaitingPeer { .. } => 3,
        Phase::RequestingRelay => 3,
        Phase::Resolved { .. } => 4,
        Phase::Failed(_) => 0,
    }
}

/// Takes in one report and says what to do next.
pub fn advance(role: Role, phase: Phase, event: SessionEvent) -> (res: (Phase, Directive))
    ensures
        res == session_step(role, phase, event),
{
    match phase {
        Phase::Resolved { .. } | Phase::Failed(_) => {
            return (phase, Directive::Nothing);
        },
        _ => {},
    }
    match event {
        SessionEvent::StepFailed(e) => (Phase::Failed(e), Directive::Abort(e)),
        SessionEvent::DeadlineElapsed => (
            Phase::Failed(NetError::Timeout),
            Directive::Abort(NetError::Timeout),
        ),
        SessionEvent::Started => match phase {
            Phase::Connected => (Phase::AwaitingIdentity, Directive::SendRegister),
            _ => (phase, Directive::Nothing),
        },
        SessionEvent::IdentityKnown => match phase {
            Phase::AwaitingIdentity => (Phase::Identified, Directive::RegisterSocket),
            _ => (phase, Directive::Nothing),
        },
        SessionEvent::SocketRegistered => match phase {
            Phase::Identified => match role {
                Role::Host { peers } => (
                    Phase::AwaitingPeer { remaining: peers, first: None },
                    Directive::AwaitPeer,
                ),
                Role::Joiner => (Phase::RequestingRelay, Directive::RequestRelay),
            },
            _ => (phase, Directive::Nothing),
        },
        SessionEvent::RelayResolved(port) => match phase {
            Phase::AwaitingPeer { remaining, first } => {
                let settled = match first {
                    Some(p) => p,
                    None => port,
                };
                if remaining <= 1 {
                    (Phase::Resolved { port: settled }, Directive::StartPumps { port: settled })
                } else {
                    (
                        Phase::AwaitingPeer { remaining: remaining - 1, first: Some(settled) },
                        Directive::AwaitPeer,
                    )
                }
            },
            Phase::RequestingRelay => (Phase::Resolved { port }, Directive::StartPumps { port }),
            _ => (phase, Directive::Nothing),
        },
    }
}

/// Where a run of reports leads, starting from a fresh connection.
pub fn replay(role: Role, events: &[SessionEvent]) -> (res: Phase)
    ensures
        res == session_run(role, Phase::Connected, events@),
{
    let mut phase = Phase::Connected;
    let mut i: usize = 0;
    assert(events@.skip(0) =~= events@);
    while i < events.len()
        invariant
            i <= events@.len(),
            session_run(role, Phase::Connected, events@) == session_run(
                role,
                phase,
                events@.skip(i as int),
            ),
        decreases events@.len() - i,
    {
        assert(events@.skip(i as int).skip(1) =~= events@.skip(i + 1));
        let (next, _) = advance(role, phase, events[i]);
        phase = next;
        i += 1;
    }
    phase
}

/// The pumps are started in one situation only: a relay port arrives while
/// the session waits for it, and the session is resolved with the very port
/// that the pumps are given.
pub proof fn lemma_pumps_start_on_resolution(role: Role, phase: Phase, event: SessionEvent)
    ensures
        session_step(role, phase, event).1 is StartPumps <==> !is_terminal(phase)
            && session_step(role, phase, event).0 is Resolved,
        session_step(role, phase, event).1 is StartPumps ==> event is RelayResolved && (phase
            is AwaitingPeer || phase is RequestingRelay) && session_step(role, phase, event).0
            == (Phase::Resolved { port: session_step(role, phase, event).1->StartPumps_port }),
{
}

/// Whether the identity phase lies behind a session, or was given up.
pub open spec fn identity_settled(phase: Phase) -> bool {
    !(phase is Connected) && !(phase is AwaitingIdentity)
}

/// A session asks for one identity and registers one socket: the identity
/// is asked for on a fresh connection only, the socket is registered at the
/// moment the identity arrives, and neither is asked for again afterwards.
pub proof fn lemma_one_identity_and_one_socket(role: Role, phase: Phase, event: SessionEvent)
    ensures
        session_step(role, phase, event).1 is SendRegister ==> phase is Connected && session_step(
            role,
            phase,
            event,
        ).0 is AwaitingIdentity,
        session_step(role, phase, event).1 is RegisterSocket ==> phase is AwaitingIdentity
            && session_step(role, phase, event).0 is Identified,
        identity_settled(phase) ==> identity_settled(session_step(role, phase, event).0),
{
}

/// A session that is resolved or failed stays as it is, whatever is
/// reported: one relay port per session, and no recovery from a failure.
pub proof fn lemma_terminal_phase_is_final(role: Role, phase: Phase, events: Seq<SessionEvent>)
    requires
        is_terminal(phase),
    ensures
        session_run(role, phase, events) == phase,
    decreases events.len(),
{
    if events.len() > 0 {
        lemma_terminal_phase_is_final(role, phase, events.skip(1));
    }
}

/// A failed step, or the caller's deadline, ends any unfinished start-up
/// with that error.
pub proof fn lemma_failure_aborts(role: Role, phase: Phase, e: NetError)
    requires
        !is_terminal(phase),
    ensures
        session_step(role, phase, SessionEvent::StepFailed(e)) == (
            Phase::Failed(e),
            Directive::Abort(e),
        ),
        session_step(role, phase, SessionEvent::DeadlineElapsed) == (
            Phase::Failed(NetError::Timeout),
            Directive::Abort(NetError::Timeout),
        ),
{
}

/// No step skips a stage: a report moves the start-up on by one stage at
/// most.
pub proof fn lemma_one_stage_per_step(role: Role, phase: Phase, event: SessionEvent)
    ensures
        progress(session_step(role, phase, event).0) <= progress(phase) + 1,
{
}

/// A session is resolved only after at least four reports: the connection,
/// the identity, the socket and the relay port.  No partial start-up runs
/// the pumps.
pub proof fn lemma_resolution_needs_every_stage(
    role: Role,
    phase: Phase,
    events: Seq<SessionEvent>,
)
    ensures
        progress(session_run(role, phase, events)) <= progress(phase) + events.len(),
        phase is Connected && session_run(role, phase, events) is Resolved ==> events.len() >= 4,
    decreases events.len(),
{
    if events.len() > 0 {
        lemma_one_stage_per_step(role, phase, events[0]);
        lemma_resolution_needs_every_stage(
            role,
            session_step(role, phase, events[0]).0,
            events.skip(1),
        );
    }
}

} // verus!
