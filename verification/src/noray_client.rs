//! The rendezvous handshake: identity first, then the relay port.
//!
//! The caller owns the connection.  It writes the command of the phase,
//! reads with a short timeout, and reports each read as a [`ReadEvent`]; the
//! state machines here decide what the read means and when to give up.  The
//! functions that take a whole list of events give the outcome of a complete
//! exchange, with silence after the last event.

use vstd::prelude::*;
use vstd::slice::slice_to_vec;
use vstd::string::StringSliceAdditionalSpecFns;
use vstd::utf8::encode_utf8;
use crate::control_line::{
    classify, classify_relay, keyword, parse_line, parse_relay_line, reports_failure, trim,
    LineMeaning, ServerLine,
};
use crate::error::NetError;

verus! {

/// Reads allowed while waiting for the identity (about one second).
pub const IDENTITY_ATTEMPTS: u32 = 10;

/// Reads allowed while a joiner waits for the relay port (about 15 seconds).
pub const JOINER_ATTEMPTS: u32 = 150;

/// Reads allowed while a host waits for a peer (about 60 seconds).
pub const HOST_ATTEMPTS: u32 = 600;

/// Timeout of a single read, and the pause between reads, in milliseconds.
pub const READ_TIMEOUT_MS: u64 = 100;

/// Where the rendezvous server listens.
#[derive(Debug, Clone)]
pub struct NorayConfig {
    pub host: String,
    pub tcp_port: u16,
    pub udp_port: u16,
}

impl Default for NorayConfig {
    fn default() -> (res: Self)
        ensures
            res.host@ == "127.0.0.1"@,
            res.tcp_port == 8890,
            res.udp_port == 8809,
    {
        NorayConfig { host: "127.0.0.1".to_owned(), tcp_port: 8890, udp_port: 8809 }
    }
}

/// The identity that the server issued: `oid` is shared with peers, `pid`
/// registers the datagram socket.
#[derive(Debug, Clone, PartialEq, Eq)]
pub struct RegistrationInfo {
    pub oid: String,
    pub pid: String,
}

/// The mathematical value of a [`RegistrationInfo`].
pub struct Identity {
    pub oid: Seq<char>,
    pub pid: Seq<char>,
}

impl View for RegistrationInfo {
    type V = Identity;

    open spec fn view(&self) -> Identity {
        Identity { oid: self.oid@, pid: self.pid@ }
    }
}

/// What one read on the control connection brought.
#[derive(Debug, Clone, PartialEq, Eq)]
pub enum ReadEvent {
    /// A line, with or without its line ending.
    Line(Vec<u8>),
    /// Nothing: the read timed out or returned no bytes.
    Silence,
    /// The read failed for another reason.
    Broken,
}

/// The mathematical value of a [`ReadEvent`].
pub enum Event {
    Line(Seq<u8>),
    Silence,
    Broken,
}

impl View for ReadEvent {
    type V = Event;

    open spec fn view(&self) -> Event {
        match self {
            ReadEvent::Line(l) => Event::Line(l@),
            ReadEvent::Silence => Event::Silence,
            ReadEvent::Broken => Event::Broken,
        }
    }
}

/// The events that a list of reads stands for.
pub open spec fn events_of(reads: Seq<ReadEvent>) -> Seq<Event> {
    Seq::new(reads.len(), |i: int| reads[i]@)
}

/// The line that asks the server for an identity.
pub fn register_command() -> (res: Vec<u8>)
    ensures
        res@ == "register-host\n".spec_bytes(),
{
    slice_to_vec("register-host\n".as_bytes())
}

/// The line that asks the server for a relay to the peer `host_oid`.
pub fn connect_relay_command(host_oid: &str) -> (res: Vec<u8>)
    ensures
        res@ == "connect-relay ".spec_bytes() + host_oid.spec_bytes() + "\n".spec_bytes(),
{
    let mut out = slice_to_vec("connect-relay ".as_bytes());
    out.extend_from_slice(host_oid.as_bytes());
    out.extend_from_slice("\n".as_bytes());
    out
}

/// The datagram that registers a socket with the server: the bytes of the
/// private token and nothing else.
pub fn registration_datagram(info: &RegistrationInfo) -> (res: Vec<u8>)
    ensures
        res@ == encode_utf8(info.pid@),
{
    slice_to_vec(info.pid.as_str().as_bytes())
}

/// Identity phase: what is known so far and how many reads remain.
#[derive(Debug, Clone, PartialEq, Eq)]
pub struct IdentityHandshake {
    pub oid: Option<String>,
    pub pid: Option<String>,
    pub attempts_left: u32,
}

/// The mathematical value of an [`IdentityHandshake`].
pub struct IdentityState {
    pub oid: Option<Seq<char>>,
    pub pid: Option<Seq<char>>,
    pub attempts_left: nat,
}

/// The characters of a value that may not be known yet.
pub open spec fn text_of(s: Option<String>) -> Option<Seq<char>> {
    match s {
        Some(v) => Some(v@),
        None => None,
    }
}

impl View for IdentityHandshake {
    type V = IdentityState;

    open spec fn view(&self) -> IdentityState {
        IdentityState {
            oid: text_of(self.oid),
            pid: text_of(self.pid),
            attempts_left: self.attempts_left as nat,
        }
    }
}

/// Where the identity phase stands after a read.
#[derive(Debug, Clone, PartialEq, Eq)]
pub enum IdentityProgress {
    /// Read again, after a pause.
    Pending(IdentityHandshake),
    /// Both parts of the identity are known.
    Done(RegistrationInfo),
    /// The phase is over without an identity.
    Failed(NetError),
}

/// The mathematical value of an [`IdentityProgress`].
pub enum IdentityStep {
    Pending(IdentityState),
    Done(Identity),
    Failed(NetError),
}

impl View for IdentityProgress {
    type V = IdentityStep;

    open spec fn view(&self) -> IdentityStep {
        match self {
            IdentityProgress::Pending(s) => IdentityStep::Pending(s@),
            IdentityProgress::Done(i) => IdentityStep::Done(i@),
            IdentityProgress::Failed(e) => IdentityStep::Failed(*e),
        }
    }
}

/// The state before the first read.
pub open spec fn identity_start(budget: nat) -> IdentityState {
    IdentityState { oid: None, pid: None, attempts_left: budget }
}

/// What is known after hearing a line with meaning `m`.
pub open spec fn absorb(st: IdentityState, m: LineMeaning) -> IdentityState {
    match m {
        LineMeaning::SetOid(v) => IdentityState { oid: Some(v), ..st },
        LineMeaning::SetPid(v) => IdentityState { pid: Some(v), ..st },
        _ => st,
    }
}

/// What is known after the event `ev`.
pub open spec fn heard(st: IdentityState, ev: Event) -> IdentityState {
    match ev {
        Event::Line(l) => absorb(st, classify(l)),
        _ => st,
    }
}

/// Whether `ev` ends the identity phase at once: a failed read or a
/// failure line.
pub open spec fn fatal(ev: Event) -> Option<NetError> {
    match ev {
        Event::Broken => Some(NetError::TransportIo),
        Event::Line(l) => if classify(l) is Failure {
            Some(NetError::Protocol)
        } else {
            None
        },
        Event::Silence => None,
    }
}

/// Whether `ev` ends the relay phase at once: a failed read or a failure
/// line, as the relay phase reads lines.
pub open spec fn relay_fatal(ev: Event) -> Option<NetError> {
    match ev {
        Event::Broken => Some(NetError::TransportIo),
        Event::Line(l) => if classify_relay(l) is Failure {
            Some(NetError::Protocol)
        } else {
            None
        },
        Event::Silence => None,
    }
}

/// One step of the identity phase.  Every read uses up one attempt; the phase
/// ends as soon as both values are known, and fails with a timeout when the
/// last attempt did not bring them.
pub open spec fn identity_step(st: IdentityState, ev: Event) -> IdentityStep {
    if st.attempts_left == 0 {
        IdentityStep::Failed(NetError::Timeout)
    } else if fatal(ev) is Some {
        IdentityStep::Failed(fatal(ev)->0)
    } else {
        let now = heard(st, ev);
        if now.oid is Some && now.pid is Some {
            IdentityStep::Done(Identity { oid: now.oid->0, pid: now.pid->0 })
        } else if st.attempts_left == 1 {
            IdentityStep::Failed(NetError::Timeout)
        } else {
            IdentityStep::Pending(
                IdentityState { attempts_left: (st.attempts_left - 1) as nat, ..now },
            )
        }
    }
}

/// The outcome of the identity phase when the reads bring `events` and then
/// nothing more.
pub open spec fn identity_outcome(st: IdentityState, events: Seq<Event>) -> Result<
    Identity,
    NetError,
>
    decreases events.len(),
{
    if events.len() == 0 {
        Err(NetError::Timeout)
    } else {
        match identity_step(st, events[0]) {
            IdentityStep::Pending(next) => identity_outcome(next, events.skip(1)),
            IdentityStep::Done(id) => Ok(id),
            IdentityStep::Failed(e) => Err(e),
        }
    }
}

impl IdentityHandshake {
    /// The state before the first read, with `budget` reads allowed.
    pub fn start(budget: u32) -> (res: IdentityHandshake)
        ensures
            res@ == identity_start(budget as nat),
    {
        IdentityHandshake { oid: None, pid: None, attempts_left: budget }
    }

    /// Takes in the result of one read.
    pub fn advance(self, event: &ReadEvent) -> (res: IdentityProgress)
        ensures
            res@ == identity_step(self@, event@),
    {
        let IdentityHandshake { oid, pid, attempts_left } = self;
        if attempts_left == 0 {
            return IdentityProgress::Failed(NetError::Timeout);
        }
        let mut oid = oid;
        let mut pid = pid;
        match event {
            ReadEvent::Broken => {
                return IdentityProgress::Failed(NetError::TransportIo);
            },
            ReadEvent::Silence => {},
            ReadEvent::Line(bytes) => match parse_line(bytes.as_slice()) {
                ServerLine::Failure => {
                    return IdentityProgress::Failed(NetError::Protocol);
                },
                ServerLine::SetOid(v) => {
                    oid = Some(v);
                },
                ServerLine::SetPid(v) => {
                    pid = Some(v);
                },
                _ => {},
            },
        }
        match (oid, pid) {
            (Some(oid), Some(pid)) => IdentityProgress::Done(RegistrationInfo { oid, pid }),
            (oid, pid) => if attempts_left == 1 {
                IdentityProgress::Failed(NetError::Timeout)
            } else {
                IdentityProgress::Pending(
                    IdentityHandshake { oid, pid, attempts_left: attempts_left - 1 },
                )
            },
        }
    }
}

/// Relay phase: how many reads remain.
#[derive(Debug, Clone, Copy, PartialEq, Eq, Structural)]
pub struct RelayHandshake {
    pub attempts_left: u32,
}

/// Where the relay phase stands after a read.
#[derive(Debug, Clone, Copy, PartialEq, Eq, Structural)]
pub enum RelayProgress {
    /// Read again, after a pause.
    Pending(RelayHandshake),
    /// The relay port is known.
    Done(u16),
    /// The phase is over without a port.
    Failed(NetError),
}

/// One step of the relay phase.  Every read uses up one attempt; a
/// `connect-relay` line with a port ends the phase, and the phase fails with
/// a timeout when the last attempt did not bring one.
pub open spec fn relay_step(st: RelayHandshake, ev: Event) -> RelayProgress {
    if st.attempts_left == 0 {
        RelayProgress::Failed(NetError::Timeout)
    } else if relay_fatal(ev) is Some {
        RelayProgress::Failed(relay_fatal(ev)->0)
    } else if ev is Line && classify_relay(ev->Line_0) is ConnectRelay {
        RelayProgress::Done(classify_relay(ev->Line_0)->ConnectRelay_0)
    } else if st.attempts_left == 1 {
        RelayProgress::Failed(NetError::Timeout)
    } else {
        RelayProgress::Pending(RelayHandshake { attempts_left: (st.attempts_left - 1) as u32 })
    }
}

/// The outcome of the relay phase when the reads bring `events` and then
/// nothing more.
pub open spec fn relay_outcome(st: RelayHandshake, events: Seq<Event>) -> Result<u16, NetError>
    decreases events.len(),
{
    if events.len() == 0 {
        Err(NetError::Timeout)
    } else {
        match relay_step(st, events[0]) {
            RelayProgress::Pending(next) => relay_outcome(next, events.skip(1)),
            RelayProgress::Done(port) => Ok(port),
            RelayProgress::Failed(e) => Err(e),
        }
    }
}

impl RelayHandshake {
    /// The state before the first read, with `budget` reads allowed.
    pub fn start(budget: u32) -> (res: RelayHandshake)
        ensures
            res == (RelayHandshake { attempts_left: budget }),
    {
        RelayHandshake { attempts_left: budget }
    }

    /// Takes in the result of one read.
    pub fn advance(self, event: &ReadEvent) -> (res: RelayProgress)
        ensures
            res == relay_step(self, event@),
    {
        if self.attempts_left == 0 {
            return RelayProgress::Failed(NetError::Timeout);
        }
        match event {
            ReadEvent::Broken => {
                return RelayProgress::Failed(NetError::TransportIo);
            },
            ReadEvent::Silence => {},
            ReadEvent::Line(bytes) => match parse_relay_line(bytes.as_slice()) {
                ServerLine::Failure => {
                    return RelayProgress::Failed(NetError::Protocol);
                },
                ServerLine::ConnectRelay(port) => {
                    return RelayProgress::Done(port);
                },
                _ => {},
            },
        }
        if self.attempts_left == 1 {
            RelayProgress::Failed(NetError::Timeout)
        } else {
            RelayProgress::Pending(RelayHandshake { attempts_left: self.attempts_left - 1 })
        }
    }
}

/// The identity that a complete exchange yields, within the identity budget.
pub fn register_only(responses: &[ReadEvent]) -> (res: Result<RegistrationInfo, NetError>)
    ensures
        match res {
            Ok(info) => identity_outcome(
                identity_start(IDENTITY_ATTEMPTS as nat),
                events_of(responses@),
            ) == Ok::<Identity, NetError>(info@),
            Err(e) => identity_outcome(
                identity_start(IDENTITY_ATTEMPTS as nat),
                events_of(responses@),
            ) == Err::<Identity, NetError>(e),
        },
{
    let ghost all = events_of(responses@);
    let mut state = IdentityHandshake::start(IDENTITY_ATTEMPTS);
    let mut i: usize = 0;
    assert(all.skip(0) =~= all);
    while i < responses.len()
        invariant
            i <= responses@.len(),
            all == events_of(responses@),
            identity_outcome(identity_start(IDENTITY_ATTEMPTS as nat), all) == identity_outcome(
                state@,
                all.skip(i as int),
            ),
        decreases responses@.len() - i,
    {
        assert(all.skip(i as int).skip(1) =~= all.skip(i + 1));
        match state.advance(&responses[i]) {
            IdentityProgress::Pending(next) => {
                state = next;
            },
            IdentityProgress::Done(info) => {
                return Ok(info);
            },
            IdentityProgress::Failed(e) => {
                return Err(e);
            },
        }
        i += 1;
    }
    Err(NetError::Timeout)
}

/// The relay port that a complete exchange yields, within `budget` reads.
pub fn resolve_relay(responses: &[ReadEvent], budget: u32) -> (res: Result<u16, NetError>)
    ensures
        res == relay_outcome(RelayHandshake { attempts_left: budget }, events_of(responses@)),
{
    let ghost all = events_of(responses@);
    let mut state = RelayHandshake::start(budget);
    let mut i: usize = 0;
    assert(all.skip(0) =~= all);
    while i < responses.len()
        invariant
            i <= responses@.len(),
            all == events_of(responses@),
            relay_outcome(RelayHandshake { attempts_left: budget }, all) == relay_outcome(
                state,
                all.skip(i as int),
            ),
        decreases responses@.len() - i,
    {
        assert(all.skip(i as int).skip(1) =~= all.skip(i + 1));
        match state.advance(&responses[i]) {
            RelayProgress::Pending(next) => {
                state = next;
            },
            RelayProgress::Done(port) => {
                return Ok(port);
            },
            RelayProgress::Failed(e) => {
                return Err(e);
            },
        }
        i += 1;
    }
    Err(NetError::Timeout)
}

/// Host role: the relay endpoint, as port and host, once a peer has asked
/// for this host.
pub fn wait_for_connection(responses: &[ReadEvent], host: String) -> (res: Result<
    (u16, String),
    NetError,
>)
    ensures
        match relay_outcome(RelayHandshake { attempts_left: HOST_ATTEMPTS }, events_of(responses@)) {
            Ok(port) => res is Ok && res->Ok_0.0 == port && res->Ok_0.1@ == host@,
            Err(e) => res == Err::<(u16, String), NetError>(e),
        },
{
    match resolve_relay(responses, HOST_ATTEMPTS) {
        Ok(port) => Ok((port, host)),
        Err(e) => Err(e),
    }
}

/// Joiner role on a connection of its own: the relay is reached at the
/// configured host.
pub fn connect_to_relay(config: &NorayConfig, responses: &[ReadEvent]) -> (res: Result<
    (u16, String),
    NetError,
>)
    ensures
        match relay_outcome(
            RelayHandshake { attempts_left: JOINER_ATTEMPTS },
            events_of(responses@),
        ) {
            Ok(port) => res is Ok && res->Ok_0.0 == port && res->Ok_0.1@ == config.host@,
            Err(e) => res == Err::<(u16, String), NetError>(e),
        },
{
    match resolve_relay(responses, JOINER_ATTEMPTS) {
        Ok(port) => Ok((port, config.host.clone())),
        Err(e) => Err(e),
    }
}

/// Joiner role on the connection that the identity came over: the relay is
/// reached at the configured host, as on a connection of its own.
pub fn connect_to_relay_with_stream(config: &NorayConfig, responses: &[ReadEvent]) -> (res: Result<
    (u16, String),
    NetError,
>)
    ensures
        match relay_outcome(
            RelayHandshake { attempts_left: JOINER_ATTEMPTS },
            events_of(responses@),
        ) {
            Ok(port) => res is Ok && res->Ok_0.0 == port && res->Ok_0.1@ == config.host@,
            Err(e) => res == Err::<(u16, String), NetError>(e),
        },
{
    match resolve_relay(responses, JOINER_ATTEMPTS) {
        Ok(port) => Ok((port, config.host.clone())),
        Err(e) => Err(e),
    }
}

/// When the first two reads bring the `set-oid` line and then the `set-pid`
/// line, the identity phase yields exactly those two values, whatever
/// follows.
pub proof fn lemma_identity_from_oid_then_pid(
    budget: nat,
    first: Seq<u8>,
    second: Seq<u8>,
    rest: Seq<Event>,
)
    requires
        budget >= 2,
        classify(first) is SetOid,
        classify(second) is SetPid,
    ensures
        identity_outcome(
            identity_start(budget),
            seq![Event::Line(first), Event::Line(second)] + rest,
        ) == Ok::<Identity, NetError>(
            Identity { oid: classify(first)->SetOid_0, pid: classify(second)->SetPid_0 },
        ),
{
    let events = seq![Event::Line(first), Event::Line(second)] + rest;
    let after = IdentityState {
        oid: Some(classify(first)->SetOid_0),
        pid: None,
        attempts_left: (budget - 1) as nat,
    };
    assert(identity_outcome(identity_start(budget), events) == identity_outcome(
        after,
        events.skip(1),
    ));
}

/// The same holds when the `set-pid` line comes first: the order of the two
/// does not matter.
pub proof fn lemma_identity_from_pid_then_oid(
    budget: nat,
    first: Seq<u8>,
    second: Seq<u8>,
    rest: Seq<Event>,
)
    requires
        budget >= 2,
        classify(first) is SetPid,
        classify(second) is SetOid,
    ensures
        identity_outcome(
            identity_start(budget),
            seq![Event::Line(first), Event::Line(second)] + rest,
        ) == Ok::<Identity, NetError>(
            Identity { oid: classify(second)->SetOid_0, pid: classify(first)->SetPid_0 },
        ),
{
    let events = seq![Event::Line(first), Event::Line(second)] + rest;
    let after = IdentityState {
        oid: None,
        pid: Some(classify(first)->SetPid_0),
        attempts_left: (budget - 1) as nat,
    };
    assert(identity_outcome(identity_start(budget), events) == identity_outcome(
        after,
        events.skip(1),
    ));
}

/// An event that cannot complete an identity whose `pid` is still missing,
/// nor end the phase early.
pub open spec fn brings_no_pid(ev: Event) -> bool {
    fatal(ev) is None && !(ev is Line && classify(ev->Line_0) is SetPid)
}

/// An event that cannot complete an identity whose `oid` is still missing,
/// nor end the phase early.
pub open spec fn brings_no_oid(ev: Event) -> bool {
    fatal(ev) is None && !(ev is Line && classify(ev->Line_0) is SetOid)
}

/// An event that neither names a relay port nor ends the phase early.
pub open spec fn brings_no_port(ev: Event) -> bool {
    relay_fatal(ev) is None && !(ev is Line && classify_relay(ev->Line_0) is ConnectRelay)
}

/// While the `pid` never arrives the identity phase ends in a timeout,
/// whatever else was heard: half an identity is never handed out.
pub proof fn lemma_identity_times_out(st: IdentityState, events: Seq<Event>)
    requires
        st.pid is None,
        forall|i: int| 0 <= i < events.len() ==> brings_no_pid(#[trigger] events[i]),
    ensures
        identity_outcome(st, events) == Err::<Identity, NetError>(NetError::Timeout),
    decreases events.len(),
{
    if events.len() > 0 {
        match identity_step(st, events[0]) {
            IdentityStep::Pending(next) => {
                lemma_identity_times_out(next, events.skip(1));
            },
            _ => {},
        }
    }
}

/// The same holds while the `oid` never arrives.
pub proof fn lemma_identity_times_out_without_oid(st: IdentityState, events: Seq<Event>)
    requires
        st.oid is None,
        forall|i: int| 0 <= i < events.len() ==> brings_no_oid(#[trigger] events[i]),
    ensures
        identity_outcome(st, events) == Err::<Identity, NetError>(NetError::Timeout),
    decreases events.len(),
{
    if events.len() > 0 {
        match identity_step(st, events[0]) {
            IdentityStep::Pending(next) => {
                lemma_identity_times_out_without_oid(next, events.skip(1));
            },
            _ => {},
        }
    }
}

/// While no port arrives the relay phase ends in a timeout.
pub proof fn lemma_relay_times_out(st: RelayHandshake, events: Seq<Event>)
    requires
        forall|i: int| 0 <= i < events.len() ==> brings_no_port(#[trigger] events[i]),
    ensures
        relay_outcome(st, events) == Err::<u16, NetError>(NetError::Timeout),
    decreases events.len(),
{
    if events.len() > 0 {
        match relay_step(st, events[0]) {
            RelayProgress::Pending(next) => {
                lemma_relay_times_out(next, events.skip(1));
            },
            _ => {},
        }
    }
}

/// The relay phase never looks past its budget: what arrives after the last
/// allowed read has no influence on the outcome.
pub proof fn lemma_relay_reads_within_budget(st: RelayHandshake, events: Seq<Event>)
    requires
        st.attempts_left <= events.len(),
    ensures
        relay_outcome(st, events) == relay_outcome(st, events.take(st.attempts_left as int)),
    decreases events.len(),
{
    let n = st.attempts_left as int;
    if n > 0 {
        assert(events.take(n)[0] == events[0]);
        assert(events.take(n).skip(1) =~= events.skip(1).take(n - 1));
        match relay_step(st, events[0]) {
            RelayProgress::Pending(next) => {
                lemma_relay_reads_within_budget(next, events.skip(1));
            },
            _ => {},
        }
    }
}

/// The identity phase never looks past its budget either.
pub proof fn lemma_identity_reads_within_budget(st: IdentityState, events: Seq<Event>)
    requires
        st.attempts_left <= events.len(),
    ensures
        identity_outcome(st, events) == identity_outcome(
            st,
            events.take(st.attempts_left as int),
        ),
    decreases events.len(),
{
    let n = st.attempts_left as int;
    if n > 0 {
        assert(events.take(n)[0] == events[0]);
        assert(events.take(n).skip(1) =~= events.skip(1).take(n - 1));
        match identity_step(st, events[0]) {
            IdentityStep::Pending(next) => {
                lemma_identity_reads_within_budget(next, events.skip(1));
            },
            _ => {},
        }
    }
}

/// The first failure line, or failed read, that arrives within the budget
/// before any port ends the relay phase with that error and no port.
pub proof fn lemma_relay_fails_on_first_fatal(st: RelayHandshake, events: Seq<Event>, k: int)
    requires
        0 <= k < events.len(),
        k < st.attempts_left,
        forall|i: int| 0 <= i < k ==> brings_no_port(#[trigger] events[i]),
        relay_fatal(events[k]) is Some,
    ensures
        relay_outcome(st, events) == Err::<u16, NetError>(relay_fatal(events[k])->0),
    decreases events.len(),
{
    if k > 0 {
        let next = RelayHandshake { attempts_left: (st.attempts_left - 1) as u32 };
        lemma_relay_fails_on_first_fatal(next, events.skip(1), k - 1);
    }
}

/// The first `connect-relay` line with a port that arrives within the budget
/// before any failure ends the relay phase with that port.
pub proof fn lemma_relay_resolves_on_first_port(st: RelayHandshake, events: Seq<Event>, k: int)
    requires
        0 <= k < events.len(),
        k < st.attempts_left,
        forall|i: int| 0 <= i < k ==> brings_no_port(#[trigger] events[i]),
        events[k] is Line,
        classify_relay(events[k]->Line_0) is ConnectRelay,
    ensures
        relay_outcome(st, events) == Ok::<u16, NetError>(
            classify_relay(events[k]->Line_0)->ConnectRelay_0,
        ),
    decreases events.len(),
{
    if k > 0 {
        let next = RelayHandshake { attempts_left: (st.attempts_left - 1) as u32 };
        lemma_relay_resolves_on_first_port(next, events.skip(1), k - 1);
    }
}

/// A line that begins with `ERROR` or holds `Unknown`, and is no
/// `connect-relay` line, ends the relay phase with a protocol failure when it
/// arrives within the budget before any port; what follows it, a port
/// included, changes nothing.
pub proof fn lemma_relay_stops_at_failure_line(st: RelayHandshake, events: Seq<Event>, k: int)
    requires
        0 <= k < events.len(),
        k < st.attempts_left,
        forall|i: int| 0 <= i < k ==> brings_no_port(#[trigger] events[i]),
        events[k] is Line,
        reports_failure(trim(events[k]->Line_0)),
        keyword(trim(events[k]->Line_0)) != "connect-relay".spec_bytes(),
    ensures
        relay_outcome(st, events) == Err::<u16, NetError>(NetError::Protocol),
{
    lemma_relay_fails_on_first_fatal(st, events, k);
}

} // verus!
