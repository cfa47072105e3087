//! The broker session: a state machine that is told what happened on the
//! network and answers with what to do next.
//!
//! The machine owns no socket and never waits. Its driver performs the
//! `Request` of the last `Action`, reports the outcome as an `Event` and
//! carries out the effects of the answer before it turns to the next request.

use rust_mqtt::packet::v5::reason_codes::ReasonCode;
use vstd::prelude::*;
use vstd::string::StringExecFns;

use crate::eink::Msg;
use crate::led::RGB;
use crate::net::{parse_ipv4, parse_ipv4_text, Ipv4Address, Ipv4Cidr};
use crate::text::{chars_of, decimal, decimal_text, parse_number, parse_number_in, same_text};

verus! {

/// Failed sessions after which no further attempt is made.
pub const MQTT_MAX_RETRY_COUNT: u8 = 5;

/// Seconds of silence after which the broker is probed.
pub const MQTT_PING_TO: u8 = 30;

/// Size in bytes of each of the client's two packet buffers.
pub const MQTT_MAX_BUF_SIZE: usize = 240;

/// Largest packet, in bytes, that the client tells the broker it takes.
pub const MQTT_MAX_PACKET_SIZE: u32 = 200;

/// Seconds of silence after which the broker may drop the session.
pub const MQTT_KEEP_ALIVE_SECS: u16 = 120;

/// Size in bytes of each of the transport's two buffers.
pub const SOCKET_BUFFER_SIZE: usize = 4096;

/// Milliseconds between two looks at the link while it is down.
pub const LINK_POLL_MS: u64 = 500;

/// Milliseconds between two looks at the address while none is leased.
pub const ADDRESS_POLL_MS: u64 = 100;

/// Milliseconds to wait after the transport could not be opened.
pub const BACKOFF_MS: u64 = 1000;

/// Milliseconds between two idle rounds once the session has given up.
pub const IDLE_MS: u64 = 500;

/// Seconds after which an attempt to open the transport is abandoned.
pub const CONNECT_TIMEOUT_SECS: u64 = 10;

/// Seconds between two keep-alive probes of the transport itself.
pub const TRANSPORT_KEEP_ALIVE_SECS: u64 = 5;

/// Reason code of an error without further detail.
pub const UNSPECIFIED_ERROR: u8 = 0x80;

/// Reason code that the client reports for a probe sent while a message
/// was coming in.
pub const IMPLEMENTATION_SPECIFIC_ERROR: u8 = 0x83;

/// Topic on which colour commands for the indicator come in.
pub const INDICATOR_TOPIC: &'static str = "indicator/color";

/// Topic on which texts for the display come in.
pub const MESSAGE_TOPIC: &'static str = "indicator/message";

/// Topic on which button presses are reported.
pub const SWITCH_TOPIC: &'static str = "test/switch";

/// How sure the delivery of a message is made.
#[derive(Debug, Clone, Copy, PartialEq, Eq, Structural)]
pub enum Qos {
    /// Sent once, never acknowledged.
    AtMostOnce,
    /// Sent until it is acknowledged.
    AtLeastOnce,
    /// Delivered exactly once, by a handshake in two rounds.
    ExactlyOnce,
}

/// The delivery level that the session subscribes and publishes with.
pub const MQTT_MAX_QOS: Qos = Qos::AtLeastOnce;

/// What an inbound topic carries.
#[derive(Debug, Clone, Copy, PartialEq, Eq, Structural)]
pub enum Route {
    /// A colour record for the indicator.
    Indicator,
    /// A text record for the display.
    Message,
    /// Nothing that the session knows of.
    Unknown,
}

/// What `topic` carries.
pub open spec fn route_of(topic: Seq<char>) -> Route {
    if topic == INDICATOR_TOPIC@ {
        Route::Indicator
    } else if topic == MESSAGE_TOPIC@ {
        Route::Message
    } else {
        Route::Unknown
    }
}

/// Says what the payload of a message on `topic` is to be decoded as.
pub fn route(topic: &str) -> (to: Route)
    ensures
        to == route_of(topic@),
{
    if same_text(topic, INDICATOR_TOPIC) {
        Route::Indicator
    } else if same_text(topic, MESSAGE_TOPIC) {
        Route::Message
    } else {
        Route::Unknown
    }
}

/// A message to publish.
#[derive(Debug, Clone, PartialEq, Eq)]
pub struct Outbound {
    pub topic: &'static str,
    pub payload: String,
    pub qos: Qos,
    pub retain: bool,
}

/// The text that reports a press of button `id`.
pub open spec fn button_text(id: u8) -> Seq<char> {
    "button "@ + decimal(id as nat) + " pressed"@
}

/// The message that reports a press of button `id`: a short text on the
/// switch topic, acknowledged once and not retained.
pub fn button_report(id: u8) -> (out: Outbound)
    ensures
        out.topic@ == SWITCH_TOPIC@,
        out.payload@ == button_text(id),
        out.qos == MQTT_MAX_QOS,
        !out.retain,
{
    let mut payload = String::from_str("button ");
    payload.append(decimal_text(id as u16).as_str());
    payload.append(" pressed");
    Outbound { topic: SWITCH_TOPIC, payload, qos: MQTT_MAX_QOS, retain: false }
}

/// The endpoint that a dotted address and a decimal port name.
pub open spec fn parse_endpoint(addr: Seq<char>, port: Seq<char>) -> Option<(Ipv4Address, u16)> {
    match (parse_ipv4(addr), parse_number(port, 65535)) {
        (Some(address), Some(number)) => Some((address, number as u16)),
        _ => None,
    }
}

/// Reads the broker's endpoint from its configured address and port. The
/// two must be well formed: `find_mqtt_remote_endpoint` tells whether they
/// are.
pub fn gen_mqtt_remote_endpoint(addr: &str, port: &str) -> (endpoint: (Ipv4Address, u16))
    requires
        parse_endpoint(addr@, port@) is Some,
    ensures
        Some(endpoint) == parse_endpoint(addr@, port@),
{
    match find_mqtt_remote_endpoint(addr, port) {
        Some(endpoint) => endpoint,
        None => vstd::pervasive::unreached(),
    }
}

/// Reads the broker's endpoint from an address and a port that may be
/// malformed. `None` where either is: the address is not four numbers up to
/// 255 with dots between them, or the port is no number up to 65535.
pub fn find_mqtt_remote_endpoint(addr: &str, port: &str) -> (endpoint: Option<(Ipv4Address, u16)>)
    ensures
        endpoint == parse_endpoint(addr@, port@),
{
    let digits = chars_of(port);
    assert(digits@.subrange(0, digits@.len() as int) == port@);
    let mqtt_port = match parse_number_in(&digits, 0, digits.len(), 65535) {
        Some(number) => number,
        None => {
            return None;
        },
    };
    match parse_ipv4_text(addr) {
        Some(mqtt_addr) => Some((mqtt_addr, mqtt_port)),
        None => None,
    }
}

/// The reason that the broker client gives for a failure.
#[verifier::external_type_specification]
#[verifier::external_body]
pub struct ExReasonCode(ReasonCode);

/// The byte that stands for `code` in a packet, as `rust_mqtt` has it:
/// 0x80 for an unspecified error, 0x83 for an implementation-specific one.
pub uninterp spec fn reason_number(code: ReasonCode) -> u8;

/// `u8::from` for `rust_mqtt`'s `ReasonCode`: the byte that stands for the
/// reason in a packet. The byte depends on the reason alone.
#[verifier::external_body]
fn reason_byte(code: ReasonCode) -> (byte: u8)
    ensures
        byte == reason_number(code),
{
    u8::from(code)
}

/// Where the session stands.
#[derive(Debug, Clone, Copy, PartialEq, Eq, Structural)]
pub enum Phase {
    /// Waiting for the wireless link.
    LinkWait,
    /// Waiting for an address lease.
    IpWait,
    /// Opening the transport to the broker.
    Connecting,
    /// Authenticating, then subscribing.
    Subscribing,
    /// Established: receiving, reporting the button, probing.
    Serving,
    /// Pausing after the transport could not be opened.
    Backoff,
    /// Too many failures: nothing is attempted any more.
    GivenUp,
}

/// The outside work that the session waits for.
#[derive(Debug, Clone, Copy, PartialEq, Eq)]
pub enum Request {
    /// Sleep, then report whether the link is up.
    PollLink { delay_ms: u64 },
    /// Sleep, then report the leased address, if any.
    PollAddress { delay_ms: u64 },
    /// Open the transport to `endpoint` and report whether that worked.
    Connect { endpoint: (Ipv4Address, u16), timeout_secs: u64, keep_alive_secs: u64 },
    /// Sleep, then report that the pause is over.
    BackOff { delay_ms: u64 },
    /// Present the credentials to the broker and report whether it took them.
    Authenticate,
    /// Subscribe to the inbound topics and report whether that worked.
    Subscribe,
    /// Wait for a message, a button press or `keep_alive_secs` of silence,
    /// whichever comes first, and report it.
    Serve { keep_alive_secs: u64 },
    /// Probe the broker and report the outcome.
    Probe,
    /// Sleep, and report nothing.
    Idle { delay_ms: u64 },
}

/// What happened outside.
#[derive(Debug, Clone, PartialEq, Eq)]
pub enum Event {
    /// The link was looked at and is up, or not.
    Link(bool),
    /// The address was looked at; `None` while there is no lease.
    Address(Option<Ipv4Cidr>),
    /// The transport was opened, or could not be.
    Connected(bool),
    /// The pause after a failed connect is over.
    BackoffElapsed,
    /// The broker took the credentials, or did not.
    Authenticated(bool),
    /// The subscription was made, or was not. One that was not made ends
    /// the session as refused credentials do.
    Subscribed(bool),
    /// A payload came on the colour topic; `None` where it was malformed.
    Indicator(Option<RGB>),
    /// A payload came on the message topic; `None` where it was malformed.
    Message(Option<Msg>),
    /// A payload came on a topic that the session knows nothing of.
    UnknownTopic,
    /// Receiving failed with this reason code.
    ReadFailed(u8),
    /// The button with this identifier was pressed.
    Button(u8),
    /// Nothing happened for the keep-alive interval.
    KeepAliveDue,
    /// The probe was answered (`None`) or failed with a reason code.
    Probed(Option<u8>),
}

impl Event {
    /// The event for a receive that failed for the reason `code`.
    pub fn read_failed(code: ReasonCode) -> (event: Event)
        ensures
            event == Event::ReadFailed(reason_number(code)),
    {
        Event::ReadFailed(reason_byte(code))
    }

    /// The event for the outcome of a probe: answered, or failed for a
    /// reason.
    pub fn probed(outcome: Result<(), ReasonCode>) -> (event: Event)
        ensures
            event == match outcome {
                Ok(_) => Event::Probed(None),
                Err(code) => Event::Probed(Some(reason_number(code))),
            },
    {
        match outcome {
            Ok(()) => Event::Probed(None),
            Err(code) => Event::Probed(Some(reason_byte(code))),
        }
    }
}

/// What to do with the published broker endpoint.
#[derive(Debug, Clone, Copy, PartialEq, Eq)]
pub enum EndpointUpdate {
    /// Leave it as it is and signal nothing.
    Keep,
    /// Publish this endpoint and signal "broker up".
    Announce((Ipv4Address, u16)),
    /// Clear it and signal "broker down".
    Withdraw,
}

/// The session's answer to an event: effects to carry out now, each at most
/// once and in the order in which they stand here, and the request to
/// perform after them.
#[derive(Debug, Clone, PartialEq, Eq)]
pub struct Action {
    /// An address to publish as the device's own.
    pub address: Option<Ipv4Cidr>,
    /// What becomes of the published broker endpoint.
    pub endpoint: EndpointUpdate,
    /// A colour to put on the indicator channel.
    pub indicator: Option<RGB>,
    /// A message to put on the display channel.
    pub display: Option<Msg>,
    /// A button whose press is to be reported to the broker.
    pub report: Option<u8>,
    /// The outside work to perform next.
    pub next: Request,
}

impl Action {
    /// The action without effects that asks for `next`.
    pub open spec fn only(next: Request) -> Action {
        Action {
            address: None,
            endpoint: EndpointUpdate::Keep,
            indicator: None,
            display: None,
            report: None,
            next,
        }
    }

    /// Whether the action has no effect besides its request.
    pub open spec fn is_quiet(self) -> bool {
        &&& self.address is None
        &&& self.endpoint is Keep
        &&& self.indicator is None
        &&& self.display is None
        &&& self.report is None
    }
}

/// The session as a value: phase, failures so far, and whether the broker
/// endpoint is currently published.
pub struct SessionState {
    pub phase: Phase,
    pub retries: u8,
    pub announced: bool,
    pub endpoint: (Ipv4Address, u16),
}

impl SessionState {
    /// What holds of every state that a session can reach.
    pub open spec fn wf(self) -> bool {
        &&& self.retries <= MQTT_MAX_RETRY_COUNT
        &&& (self.phase is GivenUp <==> self.retries == MQTT_MAX_RETRY_COUNT)
        &&& (self.announced ==> self.phase is Subscribing || self.phase is Serving)
        &&& (self.phase is Serving ==> self.announced)
    }

    /// The state in which every session starts.
    pub open spec fn initial(endpoint: (Ipv4Address, u16)) -> SessionState {
        SessionState { phase: Phase::LinkWait, retries: 0, announced: false, endpoint }
    }

    /// The same state in another phase.
    pub open spec fn at(self, phase: Phase) -> SessionState {
        SessionState { phase, ..self }
    }

    /// The request that the phase waits for when nothing else is asked.
    pub open spec fn pending(self) -> Request {
        match self.phase {
            Phase::LinkWait => Request::PollLink { delay_ms: 0 },
            Phase::IpWait => Request::PollAddress { delay_ms: 0 },
            Phase::Connecting => Request::Connect {
                endpoint: self.endpoint,
                timeout_secs: CONNECT_TIMEOUT_SECS,
                keep_alive_secs: TRANSPORT_KEEP_ALIVE_SECS,
            },
            Phase::Subscribing => if self.announced {
                Request::Subscribe
            } else {
                Request::Authenticate
            },
            Phase::Serving => Request::Serve { keep_alive_secs: MQTT_PING_TO as u64 },
            Phase::Backoff => Request::BackOff { delay_ms: BACKOFF_MS },
            Phase::GivenUp => Request::Idle { delay_ms: IDLE_MS },
        }
    }

    /// The state after one more failed session: the failure is counted, the
    /// endpoint is no longer published, and the session starts over unless
    /// the count has reached `MQTT_MAX_RETRY_COUNT`.
    pub open spec fn restarted(self) -> SessionState {
        let retries = (self.retries + 1) as u8;
        SessionState {
            phase: if retries == MQTT_MAX_RETRY_COUNT {
                Phase::GivenUp
            } else {
                Phase::LinkWait
            },
            retries,
            announced: false,
            endpoint: self.endpoint,
        }
    }

    /// State and action after a failure that ends the session. The endpoint
    /// is withdrawn where `withdraw` asks for it and whenever the session
    /// gives up; the indicator is switched off where `darken` asks for it.
    pub open spec fn fail(self, withdraw: bool, darken: bool) -> (SessionState, Action) {
        let after = self.restarted();
        (
            after,
            Action {
                address: None,
                endpoint: if withdraw || after.phase is GivenUp {
                    EndpointUpdate::Withdraw
                } else {
                    EndpointUpdate::Keep
                },
                indicator: if darken {
                    Some(RGB::spec_off())
                } else {
                    None
                },
                display: None,
                report: None,
                next: after.pending(),
            },
        )
    }

    /// State and action after `event`. An event that the phase does not
    /// wait for changes nothing and is answered with the pending request.
    pub open spec fn transition(self, event: Event) -> (SessionState, Action) {
        match (self.phase, event) {
            (Phase::LinkWait, Event::Link(up)) => if up {
                (self.at(Phase::IpWait), Action::only(Request::PollAddress { delay_ms: 0 }))
            } else {
                (self, Action::only(Request::PollLink { delay_ms: LINK_POLL_MS }))
            },
            (Phase::IpWait, Event::Address(lease)) => match lease {
                Some(cidr) => (
                    self.at(Phase::Connecting),
                    Action {
                        address: Some(cidr),
                        ..Action::only(self.at(Phase::Connecting).pending())
                    },
                ),
                None => (self, Action::only(Request::PollAddress { delay_ms: ADDRESS_POLL_MS })),
            },
            (Phase::Connecting, Event::Connected(opened)) => if opened {
                (self.at(Phase::Subscribing), Action::only(Request::Authenticate))
            } else {
                (self.at(Phase::Backoff), Action::only(Request::BackOff { delay_ms: BACKOFF_MS }))
            },
            (Phase::Backoff, Event::BackoffElapsed) => self.fail(false, false),
            (Phase::Subscribing, Event::Authenticated(accepted)) => if self.announced {
                (self, Action::only(self.pending()))
            } else if accepted {
                (
                    SessionState { announced: true, ..self },
                    Action {
                        endpoint: EndpointUpdate::Announce(self.endpoint),
                        ..Action::only(Request::Subscribe)
                    },
                )
            } else {
                self.fail(true, false)
            },
            (Phase::Subscribing, Event::Subscribed(made)) => if !self.announced {
                (self, Action::only(self.pending()))
            } else if made {
                (
                    self.at(Phase::Serving),
                    Action::only(Request::Serve { keep_alive_secs: MQTT_PING_TO as u64 }),
                )
            } else {
                self.fail(true, false)
            },
            (Phase::Serving, Event::Indicator(Some(colour))) => (
                self,
                Action { indicator: Some(colour.spec_wired()), ..Action::only(self.pending()) },
            ),
            (Phase::Serving, Event::Message(Some(msg))) => (
                self,
                Action { display: Some(msg), ..Action::only(self.pending()) },
            ),
            (Phase::Serving, Event::ReadFailed(code)) => if code == UNSPECIFIED_ERROR {
                self.fail(true, true)
            } else {
                (self, Action::only(self.pending()))
            },
            (Phase::Serving, Event::Button(id)) => (
                self,
                Action { report: Some(id), ..Action::only(self.pending()) },
            ),
            (Phase::Serving, Event::KeepAliveDue) => (self, Action::only(Request::Probe)),
            (Phase::Serving, Event::Probed(Some(code))) => if code
                == IMPLEMENTATION_SPECIFIC_ERROR {
                (self, Action::only(self.pending()))
            } else {
                self.fail(true, true)
            },
            _ => (self, Action::only(self.pending())),
        }
    }
}

impl SessionState {
    /// The state after the events of `events`, taken in order.
    pub open spec fn run(self, events: Seq<Event>) -> SessionState
        decreases events.len(),
    {
        if events.len() == 0 {
            self
        } else {
            self.run(events.drop_last()).transition(events.last()).0
        }
    }
}

/// Whatever happens, a reachable state is followed by a reachable state.
pub proof fn lemma_step_keeps_wf(s: SessionState, event: Event)
    requires
        s.wf(),
    ensures
        s.transition(event).0.wf(),
{
}

/// A malformed payload on either inbound topic is dropped: the session is
/// afterwards what it was before, and nothing is done but to go on with
/// the pending request.
pub proof fn lemma_malformed_payload_is_dropped(s: SessionState, event: Event)
    requires
        event == Event::Indicator(None) || event == Event::Message(None),
    ensures
        s.transition(event).0 == s,
        s.transition(event).1 == Action::only(s.pending()),
        s.transition(event).1.is_quiet(),
{
}

/// No event makes the count of failed sessions smaller, and none but a
/// failure that ends a session changes it: then it grows by one.
pub proof fn lemma_retries_never_decrease(s: SessionState, event: Event)
    requires
        s.wf(),
    ensures
        s.retries <= s.transition(event).0.retries <= s.retries + 1,
        s.transition(event).0.retries == s.retries + 1 <==> s.transition(event).0
            == s.restarted() && !(s.phase is GivenUp),
{
}

/// The session is in its terminal phase exactly when the count of failed
/// sessions has reached `MQTT_MAX_RETRY_COUNT`; a step enters that phase
/// exactly when it brings the count there.
pub proof fn lemma_gives_up_at_the_ceiling(s: SessionState, event: Event)
    requires
        s.wf(),
    ensures
        s.phase is GivenUp <==> s.retries == MQTT_MAX_RETRY_COUNT,
        s.transition(event).0.phase is GivenUp <==> s.transition(event).0.retries
            == MQTT_MAX_RETRY_COUNT,
        !(s.phase is GivenUp) && s.transition(event).0.phase is GivenUp ==> s.retries + 1
            == MQTT_MAX_RETRY_COUNT && s.transition(event).1.endpoint is Withdraw,
{
}

/// Once the session has given up, no event changes it, and all it ever
/// asks for is to idle: no connection is attempted again.
pub proof fn lemma_given_up_is_final(s: SessionState, event: Event)
    requires
        s.phase is GivenUp,
    ensures
        s.transition(event).0 == s,
        s.transition(event).1 == Action::only(Request::Idle { delay_ms: IDLE_MS }),
{
}

/// The broker endpoint is published only while a session is established:
/// a step announces it only on its way to `Serving`, and every step that
/// ends a session withdraws it unless it was never announced.
pub proof fn lemma_endpoint_follows_session(s: SessionState, event: Event)
    requires
        s.wf(),
    ensures
        s.transition(event).1.endpoint is Announce ==> s.phase is Subscribing && !s.announced
            && s.transition(event).0.announced && s.transition(event).1.endpoint
            == EndpointUpdate::Announce(s.endpoint),
        s.announced && !s.transition(event).0.announced ==> s.transition(event).1.endpoint
            is Withdraw,
        s.transition(event).0.announced && !s.announced ==> s.transition(event).1.endpoint
            is Announce,
{
}

/// Along any sequence of events the count of failed sessions never
/// decreases, and every state on the way is a reachable one.
pub proof fn lemma_run_is_monotone(s: SessionState, events: Seq<Event>, i: int, j: int)
    requires
        s.wf(),
        0 <= i <= j <= events.len(),
    ensures
        s.run(events.take(i)).wf(),
        s.run(events.take(j)).wf(),
        s.run(events.take(i)).retries <= s.run(events.take(j)).retries,
    decreases j,
{
    if j == 0 {
        assert(events.take(0).len() == 0);
    } else if i == j {
        lemma_run_is_monotone(s, events, i - 1, j - 1);
        assert(events.take(j).drop_last() == events.take(j - 1));
        lemma_step_keeps_wf(s.run(events.take(j - 1)), events.take(j).last());
    } else {
        lemma_run_is_monotone(s, events, i, j - 1);
        assert(events.take(j).drop_last() == events.take(j - 1));
        lemma_step_keeps_wf(s.run(events.take(j - 1)), events.take(j).last());
        lemma_retries_never_decrease(s.run(events.take(j - 1)), events.take(j).last());
    }
}

/// Along any sequence of events, once the session has given up it stays
/// as it is.
pub proof fn lemma_run_stays_given_up(s: SessionState, events: Seq<Event>, i: int, j: int)
    requires
        0 <= i <= j <= events.len(),
        s.run(events.take(i)).phase is GivenUp,
    ensures
        s.run(events.take(j)) == s.run(events.take(i)),
    decreases j,
{
    if i < j {
        lemma_run_stays_given_up(s, events, i, j - 1);
        assert(events.take(j).drop_last() == events.take(j - 1));
        lemma_given_up_is_final(s.run(events.take(j - 1)), events.take(j).last());
    }
}

/// A broker session.
pub struct Session {
    state: SessionState,
}

impl View for Session {
    type V = SessionState;

    closed spec fn view(&self) -> SessionState {
        self.state
    }
}

impl Session {
    #[verifier::type_invariant]
    spec fn inv(self) -> bool {
        self.state.wf()
    }

    /// A session for the broker at `endpoint`, waiting for the link.
    pub fn new(endpoint: (Ipv4Address, u16)) -> (session: Session)
        ensures
            session@ == SessionState::initial(endpoint),
            session@.wf(),
    {
        Session {
            state: SessionState {
                phase: Phase::LinkWait,
                retries: 0,
                announced: false,
                endpoint,
            },
        }
    }

    /// Where the session stands.
    pub fn phase(&self) -> (phase: Phase)
        ensures
            phase == self@.phase,
            self@.wf(),
    {
        proof {
            use_type_invariant(self);
        }
        self.state.phase
    }

    /// How many sessions have failed so far.
    pub fn retries(&self) -> (retries: u8)
        ensures
            retries == self@.retries,
            self@.wf(),
    {
        proof {
            use_type_invariant(self);
        }
        self.state.retries
    }

    /// Whether the broker endpoint is published at the moment.
    pub fn is_announced(&self) -> (announced: bool)
        ensures
            announced == self@.announced,
            self@.wf(),
    {
        proof {
            use_type_invariant(self);
        }
        self.state.announced
    }

    /// The broker that the session is for.
    pub fn endpoint(&self) -> (endpoint: (Ipv4Address, u16))
        ensures
            endpoint == self@.endpoint,
            self@.wf(),
    {
        proof {
            use_type_invariant(self);
        }
        self.state.endpoint
    }

    /// The request that the session waits for when nothing else was asked:
    /// the first request of a new session, and the answer to an event that
    /// the phase has no use for.
    pub fn request(&self) -> (request: Request)
        ensures
            request == self@.pending(),
            self@.wf(),
    {
        proof {
            use_type_invariant(self);
        }
        pending_request(&self.state)
    }

    /// Takes `event` in and says what to do.
    pub fn step(&mut self, event: Event) -> (action: Action)
        ensures
            (final(self)@, action) == old(self)@.transition(event),
            old(self)@.wf(),
            final(self)@.wf(),
    {
        proof {
            use_type_invariant(&*self);
        }
        let (after, action) = transition(&self.state, event);
        self.state = after;
        action
    }
}

fn quiet(next: Request) -> (action: Action)
    ensures
        action == Action::only(next),
{
    Action {
        address: None,
        endpoint: EndpointUpdate::Keep,
        indicator: None,
        display: None,
        report: None,
        next,
    }
}

fn pending_request(state: &SessionState) -> (request: Request)
    ensures
        request == state.pending(),
{
    match state.phase {
        Phase::LinkWait => Request::PollLink { delay_ms: 0 },
        Phase::IpWait => Request::PollAddress { delay_ms: 0 },
        Phase::Connecting => Request::Connect {
            endpoint: state.endpoint,
            timeout_secs: CONNECT_TIMEOUT_SECS,
            keep_alive_secs: TRANSPORT_KEEP_ALIVE_SECS,
        },
        Phase::Subscribing => if state.announced {
            Request::Subscribe
        } else {
            Request::Authenticate
        },
        Phase::Serving => Request::Serve { keep_alive_secs: MQTT_PING_TO as u64 },
        Phase::Backoff => Request::BackOff { delay_ms: BACKOFF_MS },
        Phase::GivenUp => Request::Idle { delay_ms: IDLE_MS },
    }
}

fn moved(state: &SessionState, phase: Phase) -> (after: SessionState)
    ensures
        after == state.at(phase),
{
    SessionState {
        phase,
        retries: state.retries,
        announced: state.announced,
        endpoint: state.endpoint,
    }
}

fn fail(state: &SessionState, withdraw: bool, darken: bool) -> (out: (SessionState, Action))
    requires
        state.retries < MQTT_MAX_RETRY_COUNT,
    ensures
        out == state.fail(withdraw, darken),
{
    let retries: u8 = state.retries + 1;
    let given_up = retries == MQTT_MAX_RETRY_COUNT;
    let after = SessionState {
        phase: if given_up {
            Phase::GivenUp
        } else {
            Phase::LinkWait
        },
        retries,
        announced: false,
        endpoint: state.endpoint,
    };
    let action = Action {
        address: None,
        endpoint: if withdraw || given_up {
            EndpointUpdate::Withdraw
        } else {
            EndpointUpdate::Keep
        },
        indicator: if darken {
            Some(RGB::off())
        } else {
            None
        },
        display: None,
        report: None,
        next: pending_request(&after),
    };
    (after, action)
}

fn transition(state: &SessionState, event: Event) -> (out: (SessionState, Action))
    requires
        state.wf(),
    ensures
        out == state.transition(event),
        out.0.wf(),
{
    let same = moved(state, state.phase);
    match (state.phase, event) {
        (Phase::LinkWait, Event::Link(up)) => {
            if up {
                (moved(state, Phase::IpWait), quiet(Request::PollAddress { delay_ms: 0 }))
            } else {
                (same, quiet(Request::PollLink { delay_ms: LINK_POLL_MS }))
            }
        },
        (Phase::IpWait, Event::Address(lease)) => {
            match lease {
                Some(cidr) => {
                    let after = moved(state, Phase::Connecting);
                    let mut action = quiet(pending_request(&after));
                    action.address = Some(cidr);
                    (after, action)
                },
                None => (same, quiet(Request::PollAddress { delay_ms: ADDRESS_POLL_MS })),
            }
        },
        (Phase::Connecting, Event::Connected(opened)) => {
            if opened {
                (moved(state, Phase::Subscribing), quiet(Request::Authenticate))
            } else {
                (moved(state, Phase::Backoff), quiet(Request::BackOff { delay_ms: BACKOFF_MS }))
            }
        },
        (Phase::Backoff, Event::BackoffElapsed) => fail(state, false, false),
        (Phase::Subscribing, Event::Authenticated(accepted)) => {
            if state.announced {
                (same, quiet(pending_request(state)))
            } else if accepted {
                let after = SessionState {
                    phase: state.phase,
                    retries: state.retries,
                    announced: true,
                    endpoint: state.endpoint,
                };
                let mut action = quiet(Request::Subscribe);
                action.endpoint = EndpointUpdate::Announce(state.endpoint);
                (after, action)
            } else {
                fail(state, true, false)
            }
        },
        (Phase::Subscribing, Event::Subscribed(made)) => {
            if !state.announced {
                (same, quiet(pending_request(state)))
            } else if made {
                (
                    moved(state, Phase::Serving),
                    quiet(Request::Serve { keep_alive_secs: MQTT_PING_TO as u64 }),
                )
            } else {
                fail(state, true, false)
            }
        },
        (Phase::Serving, Event::Indicator(Some(colour))) => {
            let mut action = quiet(pending_request(state));
            action.indicator = Some(colour.wired());
            (same, action)
        },
        (Phase::Serving, Event::Message(Some(msg))) => {
            let mut action = quiet(pending_request(state));
            action.display = Some(msg);
            (same, action)
        },
        (Phase::Serving, Event::ReadFailed(code)) => {
            if code == UNSPECIFIED_ERROR {
                fail(state, true, true)
            } else {
                (same, quiet(pending_request(state)))
            }
        },
        (Phase::Serving, Event::Button(id)) => {
            let mut action = quiet(pending_request(state));
            action.report = Some(id);
            (same, action)
        },
        (Phase::Serving, Event::KeepAliveDue) => (same, quiet(Request::Probe)),
        (Phase::Serving, Event::Probed(Some(code))) => {
            if code == IMPLEMENTATION_SPECIFIC_ERROR {
                (same, quiet(pending_request(state)))
            } else {
                fail(state, true, true)
            }
        },
        _ => (same, quiet(pending_request(state))),
    }
}

} // verus!
