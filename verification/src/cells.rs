//! The two shared cells: the device's own address and the broker endpoint,
//! each held as the text that the screen shows.
//!
//! A cell is written by the task that owns it and read by any other. The
//! driver keeps each behind one lock; nothing here waits or blocks.

use vstd::prelude::*;
use vstd::utf8::{encode_utf8, is_ascii_chars, is_ascii_chars_encode_utf8};

use crate::mqtt::{EndpointUpdate, Event, SessionState};
use crate::net::{cidr_text, cidr_to_text, dotted, dotted_text, Ipv4Address, Ipv4Cidr};
use crate::text::{bounded, bounded_copy, decimal, decimal_text, is_digit, lemma_decimal_len};

verus! {

/// Bytes that the text of the device's address may take.
pub const IP_ADDR_CAPACITY: usize = 21;

/// Bytes that the text of the broker's address may take.
pub const MQTT_ADDR_CAPACITY: usize = 18;

/// Bytes that the text of the broker's port may take: enough for every
/// port.
pub const MQTT_PORT_CAPACITY: usize = 5;

/// The text under which `cidr` is kept.
pub open spec fn ip_text(cidr: Ipv4Cidr) -> Seq<char> {
    bounded(cidr_text(cidr), IP_ADDR_CAPACITY as nat)
}

/// The pair of texts under which `endpoint` is kept.
pub open spec fn endpoint_texts(endpoint: (Ipv4Address, u16)) -> (Seq<char>, Seq<char>) {
    (
        bounded(dotted(endpoint.0), MQTT_ADDR_CAPACITY as nat),
        bounded(decimal(endpoint.1 as nat), MQTT_PORT_CAPACITY as nat),
    )
}

/// The last known address of the device, as text.
pub struct NetworkAddressState {
    text: Option<String>,
}

impl View for NetworkAddressState {
    type V = Option<Seq<char>>;

    closed spec fn view(&self) -> Option<Seq<char>> {
        match self.text {
            Some(text) => Some(text@),
            None => None,
        }
    }
}

impl NetworkAddressState {
    /// A cell without an address.
    pub fn new() -> (cell: NetworkAddressState)
        ensures
            cell@ is None,
    {
        NetworkAddressState { text: None }
    }

    /// Replaces the address: `addr` as text, or nothing.
    pub fn write_ip_addr(&mut self, addr: Option<Ipv4Cidr>)
        ensures
            final(self)@ == match addr {
                Some(cidr) => Some(ip_text(cidr)),
                None => None,
            },
    {
        match addr {
            Some(cidr) => {
                let text = cidr_to_text(cidr);
                self.text = Some(bounded_copy::<IP_ADDR_CAPACITY>(text.as_str()));
            },
            None => {
                self.text = None;
            },
        }
    }

    /// The address as it stands. The cell keeps it.
    pub fn read_ip_addr(&self) -> (addr: Option<String>)
        ensures
            addr is Some <==> self@ is Some,
            addr matches Some(text) ==> self@ == Some(text@),
    {
        match &self.text {
            Some(text) => Some(text.clone()),
            None => None,
        }
    }
}

/// The endpoint of the broker that a session is established with, as a
/// pair of texts: address and port.
pub struct BrokerEndpointState {
    pair: Option<(String, String)>,
}

impl View for BrokerEndpointState {
    type V = Option<(Seq<char>, Seq<char>)>;

    closed spec fn view(&self) -> Option<(Seq<char>, Seq<char>)> {
        match self.pair {
            Some(pair) => Some((pair.0@, pair.1@)),
            None => None,
        }
    }
}

/// The cell after `update`, given what it held before.
pub open spec fn updated(
    before: Option<(Seq<char>, Seq<char>)>,
    update: EndpointUpdate,
) -> Option<(Seq<char>, Seq<char>)> {
    match update {
        EndpointUpdate::Keep => before,
        EndpointUpdate::Announce(endpoint) => Some(endpoint_texts(endpoint)),
        EndpointUpdate::Withdraw => None,
    }
}

/// The signal that goes with `update`: "broker up" is `true`, "broker
/// down" is `false`, and keeping the cell signals nothing.
pub open spec fn signal_of(update: EndpointUpdate) -> Option<bool> {
    match update {
        EndpointUpdate::Keep => None,
        EndpointUpdate::Announce(_) => Some(true),
        EndpointUpdate::Withdraw => Some(false),
    }
}

impl BrokerEndpointState {
    /// A cell without an endpoint.
    pub fn new() -> (cell: BrokerEndpointState)
        ensures
            cell@ is None,
    {
        BrokerEndpointState { pair: None }
    }

    /// Replaces the endpoint: `addr` as a pair of texts, or nothing.
    /// Returns the signal to send with the change: `true` for "broker up",
    /// `false` for "broker down".
    pub fn write_mqtt_addr(&mut self, addr: Option<(Ipv4Address, u16)>) -> (up: bool)
        ensures
            final(self)@ == match addr {
                Some(endpoint) => Some(endpoint_texts(endpoint)),
                None => None,
            },
            up == addr is Some,
    {
        match addr {
            Some((addr, port)) => {
                let addr_st = bounded_copy::<MQTT_ADDR_CAPACITY>(dotted_text(addr).as_str());
                let port_st = bounded_copy::<MQTT_PORT_CAPACITY>(decimal_text(port).as_str());
                self.pair = Some((addr_st, port_st));
                true
            },
            None => {
                self.pair = None;
                false
            },
        }
    }

    /// The endpoint as it stands. The cell keeps it.
    pub fn read_mqtt_addr(&self) -> (addr: Option<(String, String)>)
        ensures
            addr is Some <==> self@ is Some,
            addr matches Some(pair) ==> self@ == Some((pair.0@, pair.1@)),
    {
        match &self.pair {
            Some(pair) => Some((pair.0.clone(), pair.1.clone())),
            None => None,
        }
    }

    /// Carries out what a session asks of the cell, and returns the signal
    /// to send with it, if any.
    pub fn apply(&mut self, update: EndpointUpdate) -> (signal: Option<bool>)
        ensures
            final(self)@ == updated(old(self)@, update),
            signal == signal_of(update),
    {
        match update {
            EndpointUpdate::Keep => None,
            EndpointUpdate::Announce(endpoint) => Some(self.write_mqtt_addr(Some(endpoint))),
            EndpointUpdate::Withdraw => Some(self.write_mqtt_addr(None)),
        }
    }
}

/// A driver that carries out every endpoint update keeps the cell in step
/// with the session: the cell holds the session's endpoint exactly while
/// the session has announced it, which it has only while it subscribes or
/// serves.
pub proof fn lemma_cell_follows_session(
    s: SessionState,
    cell: Option<(Seq<char>, Seq<char>)>,
    event: Event,
)
    requires
        s.wf(),
        cell is Some <==> s.announced,
        cell is Some ==> cell == Some(endpoint_texts(s.endpoint)),
    ensures
        ({
            let (after, action) = s.transition(event);
            let held = updated(cell, action.endpoint);
            &&& held is Some <==> after.announced
            &&& held is Some ==> held == Some(endpoint_texts(after.endpoint))
            &&& held is Some ==> after.phase is Subscribing || after.phase is Serving
            &&& after.phase is GivenUp ==> held is None
        }),
{
}

/// A text takes at least as many bytes as it has characters.
pub proof fn lemma_bytes_cover_chars(text: Seq<char>)
    ensures
        text.len() <= encode_utf8(text).len(),
    decreases text.len(),
{
    if text.len() > 0 {
        lemma_bytes_cover_chars(text.drop_first());
    }
}

proof fn lemma_decimal_is_ascii(n: nat)
    ensures
        is_ascii_chars(decimal(n)),
{
    lemma_decimal_len(n);
    assert forall|i: int| 0 <= i < decimal(n).len() implies '\0' <= #[trigger] decimal(n)[i]
        <= '\u{7f}' by {
        assert(is_digit(decimal(n)[i]));
    }
}

proof fn lemma_dotted_is_short(addr: Ipv4Address)
    ensures
        is_ascii_chars(dotted(addr)),
        7 <= dotted(addr).len() <= 15,
{
    lemma_decimal_is_ascii(addr.a as nat);
    lemma_decimal_is_ascii(addr.b as nat);
    lemma_decimal_is_ascii(addr.c as nat);
    lemma_decimal_is_ascii(addr.d as nat);
    lemma_decimal_len(addr.a as nat);
    lemma_decimal_len(addr.b as nat);
    lemma_decimal_len(addr.c as nat);
    lemma_decimal_len(addr.d as nat);
}

/// The text of an address with its prefix length always fits its cell.
pub proof fn lemma_ip_text_fits(cidr: Ipv4Cidr)
    ensures
        ip_text(cidr) == cidr_text(cidr),
{
    lemma_dotted_is_short(cidr.address);
    lemma_decimal_is_ascii(cidr.prefix_len as nat);
    lemma_decimal_len(cidr.prefix_len as nat);
    is_ascii_chars_encode_utf8(cidr_text(cidr));
}

/// The texts of a broker endpoint always fit their cell: the address in
/// dotted decimal and the port in decimal are kept whole, whatever the
/// endpoint.
pub proof fn lemma_endpoint_texts(endpoint: (Ipv4Address, u16))
    ensures
        endpoint_texts(endpoint).0 == dotted(endpoint.0),
        endpoint_texts(endpoint).1 == decimal(endpoint.1 as nat),
{
    lemma_dotted_is_short(endpoint.0);
    is_ascii_chars_encode_utf8(dotted(endpoint.0));
    lemma_decimal_is_ascii(endpoint.1 as nat);
    lemma_decimal_len(endpoint.1 as nat);
    is_ascii_chars_encode_utf8(decimal(endpoint.1 as nat));
}

} // verus!
