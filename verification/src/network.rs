use crate::component::generateUID;
use crate::component::is_hex_uid;
use crate::component::Component;
use crate::component::UID;
use crate::events::C_Param;
use crate::events::EventEmitter;
use crate::events::ParamView;
use crate::events::Signal;
use crate::events::SignalView;
use crate::events::spec_decimal;
use crate::wire::decode_datagram;
use crate::wire::encode_datagram;
use crate::wire::spec_datagram;
use crate::wire::spec_decode;
use crate::wire::spec_texts;
use crate::wire::DecodeError;
use rand::Rng;
use std::collections::HashMap;
use vstd::prelude::*;
use vstd::std_specs::iter::IteratorSpec;

verus! {

/// The kind of the event that stands for a datagram that came in.
pub const EVENT_NETWORK_MESSAGE: &'static str = "NetworkMessage";

/// The lowest local port that the outbound socket may be bound to.
pub const SENDER_PORT_FIRST: u16 = 30001;

/// The end of the range of local ports for the outbound socket; the end
/// itself is not used.
pub const SENDER_PORT_END: u16 = 65535;

/// The record of one logical port that is listened on. While the port is
/// open its record is active; the record handed out when the port is closed
/// is not, and tells the receiver of that port to stop.
#[derive(Debug, Clone, Copy, PartialEq, Eq)]
pub struct Listener {
    pub port: u16,
    pub active: bool,
}

/// The record of a listener once its port is closed: the same port, not
/// active.
pub open spec fn spec_switched_off(listener: Listener) -> Listener {
    Listener { port: listener.port, active: false }
}

/// Whether `record` is the switched-off record of one of `listeners`.
pub open spec fn spec_closes_one_of(listeners: Map<u16, Listener>, record: Listener) -> bool {
    exists|l: Listener| listeners.values().contains(l) && record == spec_switched_off(l)
}

/// Whether every listener is kept under its own port and is active: what
/// the transport keeps is always so.
pub open spec fn spec_listeners_in_order(listeners: Map<u16, Listener>) -> bool {
    forall|port: u16| #[trigger]
        listeners.contains_key(port) ==> listeners[port] == (Listener { port, active: true })
}

/// Why a port was not opened.
#[derive(Debug, Clone, Copy, PartialEq, Eq)]
pub enum OpenError {
    /// No emitter is bound, so events would have nowhere to go.
    NoDestination,
    /// The port is open already.
    AlreadyOpen,
    /// The port, added to the port base, is no port number.
    InvalidPort,
    /// The socket could not be bound.
    BindFailure,
}

/// A datagram to send: the loopback port it goes to, and its bytes.
#[derive(Debug, Clone, PartialEq, Eq)]
pub struct Datagram {
    pub port: u16,
    pub bytes: Vec<u8>,
}

/// What a [`NetworkComponent`] stands for in contracts.
pub struct NetworkView {
    pub id: UID,
    pub port_start: u16,
    pub buffer_size: usize,
    pub listeners: Map<u16, Listener>,
    pub sender_socket: Option<u16>,
    pub emitter: Option<EventEmitter>,
}

impl NetworkView {
    /// The loopback port that stands behind the logical port `port`: the
    /// port base plus `port`, where that is a port number.
    pub open spec fn address(self, port: u16) -> Option<u16> {
        if self.port_start + port <= u16::MAX {
            Some((self.port_start + port) as u16)
        } else {
            None
        }
    }

    /// Whether `port` may be bound, and to which loopback port. An unbound
    /// emitter is reported before anything else, then a port that is open
    /// already, then one without an address.
    pub open spec fn bind_address(self, port: u16) -> Result<u16, OpenError> {
        if self.emitter is None {
            Err(OpenError::NoDestination)
        } else if self.listeners.contains_key(port) {
            Err(OpenError::AlreadyOpen)
        } else {
            match self.address(port) {
                None => Err(OpenError::InvalidPort),
                Some(address) => Ok(address),
            }
        }
    }

    /// What opening `port` yields, `bound` telling whether its socket could
    /// be bound.
    pub open spec fn open_result(self, port: u16, bound: bool) -> Result<Listener, OpenError> {
        match self.bind_address(port) {
            Err(e) => Err(e),
            Ok(_) => if bound {
                Ok(Listener { port, active: true })
            } else {
                Err(OpenError::BindFailure)
            },
        }
    }

    /// The transport after `port` was asked to open: the port is open where
    /// opening succeeded, and nothing has changed where it did not.
    pub open spec fn opened(self, port: u16, bound: bool) -> NetworkView {
        if self.open_result(port, bound) is Ok {
            NetworkView {
                listeners: self.listeners.insert(port, Listener { port, active: true }),
                ..self
            }
        } else {
            self
        }
    }

    /// The transport after `port` was closed.
    pub open spec fn closed(self, port: u16) -> NetworkView {
        NetworkView { listeners: self.listeners.remove(port), ..self }
    }

    /// The transport after every port was closed.
    pub open spec fn all_closed(self) -> NetworkView {
        NetworkView { listeners: Map::<u16, Listener>::empty(), ..self }
    }

    /// The transport after the outbound socket was reported bound to
    /// `local`: the first such report is kept, later ones change nothing.
    pub open spec fn sender_bound(self, local: u16) -> NetworkView {
        if self.sender_socket is None {
            NetworkView { sender_socket: Some(local), ..self }
        } else {
            self
        }
    }

    /// The loopback port a datagram for `port` goes to, if one can be sent:
    /// the outbound socket exists and `port` has an address.
    pub open spec fn destination(self, port: u16) -> Option<u16> {
        if self.sender_socket is Some {
            self.address(port)
        } else {
            None
        }
    }
}

/// The event that stands for a datagram on `port` from `sender` with
/// `payload`: its arguments are the sender, the port as a number, then the
/// strings of the payload.
pub open spec fn spec_network_signal(
    origin: UID,
    sender: Seq<char>,
    port: u16,
    payload: Seq<Seq<char>>,
) -> SignalView {
    SignalView {
        kind: Some(EVENT_NETWORK_MESSAGE@),
        origin: origin@,
        args: seq![
            ParamView { text: sender, is_num: false },
            ParamView { text: spec_decimal(port as int), is_num: true },
        ] + payload.map_values(|text: Seq<char>| ParamView { text, is_num: false }),
    }
}

/// The event for a datagram that was taken apart.
pub fn network_signal(origin: UID, sender: String, port: u16, payload: Vec<String>) -> (signal:
    Signal)
    ensures
        signal@ == spec_network_signal(origin, sender@, port, spec_texts(payload@)),
{
    let ghost sender_text = sender@;
    let ghost texts = spec_texts(payload@);
    let mut params: Vec<C_Param> = Vec::new();
    params.push(C_Param { text: sender, is_num: false });
    params.push(C_Param::from(port as i64, true));
    let mut i: usize = 0;
    let n = payload.len();
    while i < n
        invariant
            i <= n,
            n == payload@.len(),
            texts == spec_texts(payload@),
            params@.len() == 2 + i,
            params@[0]@ == (ParamView { text: sender_text, is_num: false }),
            params@[1]@ == (ParamView { text: spec_decimal(port as int), is_num: true }),
            forall|k: int|
                0 <= k < i ==> (#[trigger] params@[2 + k])@ == (ParamView {
                    text: texts[k],
                    is_num: false,
                }),
        decreases n - i,
    {
        let text = payload[i].clone();
        params.push(C_Param { text, is_num: false });
        i += 1;
    }
    let signal = Signal::raw(EVENT_NETWORK_MESSAGE, origin, params);
    let ghost want = spec_network_signal(origin, sender_text, port, texts);
    assert(signal@.args.len() == want.args.len());
    assert forall|k: int| 0 <= k < signal@.args.len() implies signal@.args[k] == want.args[k] by {
        if k >= 2 {
            assert(signal@.args[k] == params@[2 + (k - 2)]@);
        }
    }
    assert(signal@.args =~= want.args);
    signal
}

/// The event for the datagram `datagram` that came in on the logical port
/// `port` of the transport `origin`, or why the datagram says nothing.
pub fn network_message(origin: UID, port: u16, datagram: &[u8]) -> (r: Result<Signal, DecodeError>)
    ensures
        match spec_decode(datagram@) {
            Ok((sender, payload)) => r matches Ok(signal) && signal@ == spec_network_signal(
                origin,
                sender,
                port,
                payload,
            ),
            Err(e) => r == Err::<Signal, DecodeError>(e),
        },
{
    match decode_datagram(datagram) {
        Ok((sender, payload)) => Ok(network_signal(origin, sender, port, payload)),
        Err(e) => Err(e),
    }
}

/// `Rng::gen_range` of `rand` on the thread-local generator, over the
/// half-open range from `low` to `high`: the value lies in the range, and
/// nothing is claimed about which one comes. An empty range would panic,
/// hence the precondition.
#[verifier::external_body]
fn random_port(low: u16, high: u16) -> (port: u16)
    requires
        low < high,
    ensures
        low <= port < high,
{
    rand::thread_rng().gen_range(low..high)
}

/// The loopback transport of one component, without its sockets: which
/// logical ports are listened on, whether the one outbound socket exists,
/// and where events go. The sockets and the receivers belong to the caller,
/// who binds and closes them as the results here say.
pub struct NetworkComponent {
    id: UID,
    port_Start: u16,
    buffer_size: usize,
    sockets: HashMap<u16, Listener>,
    sender_socket: Option<u16>,
    emitter: Option<EventEmitter>,
}

impl View for NetworkComponent {
    type V = NetworkView;

    closed spec fn view(&self) -> NetworkView {
        NetworkView {
            id: self.id,
            port_start: self.port_Start,
            buffer_size: self.buffer_size,
            listeners: self.sockets@,
            sender_socket: self.sender_socket,
            emitter: self.emitter,
        }
    }
}

impl Component for NetworkComponent {
    closed spec fn spec_uid(&self) -> UID {
        self.id
    }

    closed spec fn spec_emitter(&self) -> Option<EventEmitter> {
        self.emitter
    }

    fn uid(&self) -> (id: UID)
        ensures
            id == self@.id,
    {
        self.id
    }

    /// Binds or unbinds the emitter. Ports that are open stay open.
    fn listen(&mut self, emitter: Option<EventEmitter>)
        ensures
            final(self)@ == (NetworkView { emitter, ..old(self)@ }),
    {
        self.emitter = emitter;
    }
}

impl NetworkComponent {
    /// A transport with a fresh identifier whose logical port `p` stands for
    /// the loopback port `port_Start + p`. No port is open, no outbound
    /// socket exists and no emitter is bound.
    pub fn new(port_Start: u16, buffer_size: usize) -> (network: Self)
        ensures
            is_hex_uid(network@.id),
            network@ == (NetworkView {
                id: network@.id,
                port_start: port_Start,
                buffer_size,
                listeners: Map::<u16, Listener>::empty(),
                sender_socket: None,
                emitter: None,
            }),
            network.spec_uid() == network@.id,
            network.spec_emitter() is None,
    {
        let network = NetworkComponent {
            id: generateUID(),
            port_Start,
            buffer_size,
            sockets: HashMap::new(),
            sender_socket: None,
            emitter: None,
        };
        network
    }

    /// The port base.
    pub fn port_start(&self) -> (base: u16)
        ensures
            base == self@.port_start,
    {
        self.port_Start
    }

    /// The size of the buffer that a receiver reads datagrams into.
    pub fn buffer_size(&self) -> (size: usize)
        ensures
            size == self@.buffer_size,
    {
        self.buffer_size
    }

    /// Whether the logical port `port` is open.
    pub fn is_open(&self, port: u16) -> (open: bool)
        ensures
            open == self@.listeners.contains_key(port),
    {
        self.sockets.contains_key(&port)
    }

    /// The number of open ports.
    pub fn open_count(&self) -> (n: usize)
        ensures
            n == self@.listeners.dom().len(),
    {
        self.sockets.len()
    }

    /// The loopback port behind the logical port `port`, if there is one.
    pub fn address(&self, port: u16) -> (address: Option<u16>)
        ensures
            address == self@.address(port),
    {
        if port <= u16::MAX - self.port_Start {
            Some(self.port_Start + port)
        } else {
            None
        }
    }

    /// Which loopback port to bind in order to open `port`, or why the port
    /// cannot be opened. Nothing is to be bound where this is an error.
    pub fn bind_address(&self, port: u16) -> (r: Result<u16, OpenError>)
        ensures
            r == self@.bind_address(port),
    {
        if self.emitter.is_none() {
            Err(OpenError::NoDestination)
        } else if self.sockets.contains_key(&port) {
            Err(OpenError::AlreadyOpen)
        } else {
            match self.address(port) {
                None => Err(OpenError::InvalidPort),
                Some(address) => Ok(address),
            }
        }
    }

    /// Opens the logical port `port`, `bound` telling whether the socket
    /// for its address could be bound. On success the port is open and its
    /// record is handed out for the receiver that is to be started. A port
    /// that is open already is refused and its listener stays as it is; so
    /// is any port while no emitter is bound, and one without an address. A
    /// refusal changes nothing.
    pub fn open_port(&mut self, port: u16, bound: bool) -> (r: Result<Listener, OpenError>)
        ensures
            r == old(self)@.open_result(port, bound),
            final(self)@ == old(self)@.opened(port, bound),
    {
        match self.bind_address(port) {
            Err(e) => Err(e),
            Ok(_) => {
                if bound {
                    let listener = Listener { port, active: true };
                    self.sockets.insert(port, listener);
                    Ok(listener)
                } else {
                    Err(OpenError::BindFailure)
                }
            },
        }
    }

    /// The record of the logical port `port`, if the port is open.
    pub fn listener(&self, port: u16) -> (r: Option<Listener>)
        ensures
            r == if self@.listeners.contains_key(port) {
                Some(self@.listeners[port])
            } else {
                None
            },
    {
        match self.sockets.get(&port) {
            Some(listener) => Some(*listener),
            None => None,
        }
    }

    /// Closes the logical port `port`. Where it was open, its record comes
    /// back switched off: the receiver of that port is to stop and its
    /// socket to be released. Where it was not, nothing happens.
    pub fn close_port(&mut self, port: u16) -> (r: Option<Listener>)
        ensures
            final(self)@ == old(self)@.closed(port),
            r == if old(self)@.listeners.contains_key(port) {
                Some(spec_switched_off(old(self)@.listeners[port]))
            } else {
                None
            },
    {
        match self.sockets.remove(&port) {
            Some(listener) => Some(Listener { port: listener.port, active: false }),
            None => None,
        }
    }

    /// Closes every port. The records of the ports that were open come back
    /// switched off, in no particular order: there are as many as ports
    /// were open, each is the record of an open port, and the record of
    /// every open port is among them. Their receivers are to stop and their
    /// sockets to be released.
    pub fn close_all(&mut self) -> (closed: Vec<Listener>)
        ensures
            final(self)@ == old(self)@.all_closed(),
            closed@.len() == old(self)@.listeners.dom().len(),
            forall|i: int|
                0 <= i < closed@.len() ==> spec_closes_one_of(
                    old(self)@.listeners,
                    #[trigger] closed@[i],
                ),
            forall|l: Listener|
                old(self)@.listeners.values().contains(l) ==> closed@.contains(
                    #[trigger] spec_switched_off(l),
                ),
    {
        let mut closed: Vec<Listener> = Vec::new();
        proof {
            vstd::std_specs::hash::axiom_spec_values_iter(&self.sockets);
        }
        for listener in it: self.sockets.values()
            invariant
                closed@.len() == it.index(),
                forall|i: int|
                    0 <= i < closed@.len() ==> #[trigger] closed@[i] == spec_switched_off(
                        *it.seq()[i],
                    ),
        {
            closed.push(Listener { port: listener.port, active: false });
        }
        let ghost seen = vstd::std_specs::hash::spec_values_iter(&self.sockets).remaining().unref();
        assert forall|i: int| 0 <= i < closed@.len() implies spec_closes_one_of(
            old(self)@.listeners,
            #[trigger] closed@[i],
        ) by {
            assert(seen.to_set().contains(seen[i]));
            assert(old(self)@.listeners.values().contains(seen[i]) && closed@[i]
                == spec_switched_off(seen[i]));
        }
        assert forall|l: Listener| old(self)@.listeners.values().contains(l) implies closed@.contains(
            #[trigger] spec_switched_off(l),
        ) by {
            assert(seen.to_set().contains(l));
            let j = choose|j: int| 0 <= j < seen.len() && seen[j] == l;
            assert(closed@[j] == spec_switched_off(l));
        }
        self.sockets.clear();
        closed
    }

    /// Reports that the outbound socket was bound to the local port
    /// `local`. Only the first report counts: the socket is made once.
    pub fn sender_socket_bound(&mut self, local: u16)
        ensures
            final(self)@ == old(self)@.sender_bound(local),
    {
        if self.sender_socket.is_none() {
            self.sender_socket = Some(local);
        }
    }

    /// The local port to bind the outbound socket to, where that socket does
    /// not exist yet: a random port from [`SENDER_PORT_FIRST`] up to, and
    /// without, [`SENDER_PORT_END`]. Where the socket exists, nothing is to
    /// be bound.
    pub fn create_sender_socket(&self) -> (local: Option<u16>)
        ensures
            local is Some <==> self@.sender_socket is None,
            local matches Some(port) ==> SENDER_PORT_FIRST <= port < SENDER_PORT_END,
    {
        if self.sender_socket.is_none() {
            Some(random_port(SENDER_PORT_FIRST, SENDER_PORT_END))
        } else {
            None
        }
    }

    /// The datagram that carries `data` to the logical port `port`: this
    /// transport's identifier, then `data`. There is none while the outbound
    /// socket does not exist, and none for a port without an address; the
    /// message is then dropped. `_reciever` does not narrow who gets the
    /// datagram.
    pub fn send(&self, _reciever: &str, port: u16, data: Vec<String>) -> (r: Option<Datagram>)
        ensures
            match self@.destination(port) {
                Some(address) => r matches Some(datagram) && datagram.port == address
                    && datagram.bytes@ == spec_datagram(self@.id@, spec_texts(data@)),
                None => r is None,
            },
    {
        if self.sender_socket.is_none() {
            return None;
        }
        match self.address(port) {
            None => None,
            Some(address) => Some(
                Datagram { port: address, bytes: encode_datagram(&self.id, &data) },
            ),
        }
    }

    /// The datagram that carries `data` to whoever listens on `port`: the
    /// same as [`NetworkComponent::send`] without a receiver.
    pub fn broadcast(&self, port: u16, data: Vec<String>) -> (r: Option<Datagram>)
        ensures
            match self@.destination(port) {
                Some(address) => r matches Some(datagram) && datagram.port == address
                    && datagram.bytes@ == spec_datagram(self@.id@, spec_texts(data@)),
                None => r is None,
            },
    {
        self.send("", port, data)
    }

    /// The event for the datagram `datagram` that came in on `port`, with
    /// this transport as its origin.
    pub fn receive(&self, port: u16, datagram: &[u8]) -> (r: Result<Signal, DecodeError>)
        ensures
            match spec_decode(datagram@) {
                Ok((sender, payload)) => r matches Ok(signal) && signal@ == spec_network_signal(
                    self@.id,
                    sender,
                    port,
                    payload,
                ),
                Err(e) => r == Err::<Signal, DecodeError>(e),
            },
    {
        network_message(self.id, port, datagram)
    }
}

/// Opening a port that is open already is refused, whether or not a socket
/// could be bound, and leaves the transport as it is: the listener that is
/// there is never replaced.
pub proof fn lemma_open_twice_is_refused(network: NetworkView, port: u16, bound: bool)
    requires
        network.listeners.contains_key(port),
    ensures
        network.open_result(port, bound) is Err,
        network.emitter is Some ==> network.open_result(port, bound) == Err::<
            Listener,
            OpenError,
        >(OpenError::AlreadyOpen),
        network.opened(port, bound) == network,
{
}

/// A port that was opened can be opened again once it was closed: where
/// opening succeeded, closing the port and binding its socket anew succeeds
/// as well, and the port is open afterwards.
pub proof fn lemma_reopen_after_close(network: NetworkView, port: u16)
    requires
        network.open_result(port, true) is Ok,
    ensures
        network.opened(port, true).closed(port).open_result(port, true) == Ok::<
            Listener,
            OpenError,
        >(Listener { port, active: true }),
        network.opened(port, true).closed(port).opened(port, true).listeners.contains_key(port),
{
}

/// Closing every port leaves no port open, whatever was open before, and
/// every port can then be opened as if it had never been.
pub proof fn lemma_close_all_leaves_nothing(network: NetworkView, port: u16, bound: bool)
    ensures
        network.all_closed().listeners == Map::<u16, Listener>::empty(),
        !network.all_closed().listeners.contains_key(port),
        network.all_closed().bind_address(port) != Err::<u16, OpenError>(OpenError::AlreadyOpen),
{
}

/// The outbound socket is made at most once: after the first report that
/// it was bound, further reports change nothing.
pub proof fn lemma_sender_socket_once(network: NetworkView, first: u16, second: u16)
    ensures
        network.sender_bound(first).sender_socket is Some,
        network.sender_bound(first).sender_bound(second) == network.sender_bound(first),
{
}

/// Opening and closing ports keeps every listener under its own port and
/// active; a transport begins with none.
pub proof fn lemma_listeners_stay_in_order(network: NetworkView, port: u16, bound: bool)
    requires
        spec_listeners_in_order(network.listeners),
    ensures
        spec_listeners_in_order(Map::<u16, Listener>::empty()),
        spec_listeners_in_order(network.opened(port, bound).listeners),
        spec_listeners_in_order(network.closed(port).listeners),
        spec_listeners_in_order(network.all_closed().listeners),
{
}

} // verus!
