use component_bus::component::Component;
use component_bus::component::UID;
use component_bus::events::C_Param;
use component_bus::events::EventHandler;
use component_bus::events::PollMode;
use component_bus::events::PollOutcome;
use component_bus::network::network_message;
use component_bus::network::network_signal;
use component_bus::network::Listener;
use component_bus::network::NetworkComponent;
use component_bus::network::OpenError;
use component_bus::network::EVENT_NETWORK_MESSAGE;
use component_bus::network::SENDER_PORT_END;
use component_bus::network::SENDER_PORT_FIRST;
use component_bus::wire::decode_datagram;
use component_bus::wire::encode_datagram;
use component_bus::wire::DecodeError;

fn strings(items: &[&str]) -> Vec<String> {
    items.iter().map(|s| s.to_string()).collect()
}

fn bound(base: u16) -> (EventHandler, NetworkComponent) {
    let bus = EventHandler::new();
    let mut network = NetworkComponent::new(base, 1024);
    let id = network.uid();
    network.listen(Some(bus.new_emitter(id)));
    (bus, network)
}

#[test]
fn datagram_has_the_documented_layout() {
    let sender: UID = *b"0123456789ABCDEF";
    let bytes = encode_datagram(&sender, &strings(&["a", "bc"]));
    let mut want = b"0123456789ABCDEF".to_vec();
    want.extend_from_slice(&[2, 0, 0, 0, 0, 0, 0, 0]);
    want.extend_from_slice(&[1, 0, 0, 0, 0, 0, 0, 0]);
    want.push(b'a');
    want.extend_from_slice(&[2, 0, 0, 0, 0, 0, 0, 0]);
    want.extend_from_slice(b"bc");
    assert_eq!(bytes, want);
}

#[test]
fn empty_payload_is_a_count_of_zero() {
    let sender: UID = *b"FFFFFFFFFFFFFFFF";
    let bytes = encode_datagram(&sender, &Vec::new());
    assert_eq!(bytes.len(), 24);
    assert_eq!(&bytes[16..], &[0u8; 8]);
    assert_eq!(decode_datagram(&bytes), Ok(("FFFFFFFFFFFFFFFF".to_string(), Vec::new())));
}

#[test]
fn datagram_round_trip() {
    let sender: UID = *b"0123456789ABCDEF";
    let payload = strings(&["a", "b"]);
    let bytes = encode_datagram(&sender, &payload);
    assert_eq!(decode_datagram(&bytes), Ok(("0123456789ABCDEF".to_string(), payload)));
}

#[test]
fn round_trip_keeps_text_beyond_ascii() {
    let sender: UID = *b"0000000000000000";
    let payload = strings(&["", "Ungültiges Zeichen", "日本語", "a\0b"]);
    let bytes = encode_datagram(&sender, &payload);
    assert_eq!(decode_datagram(&bytes), Ok(("0000000000000000".to_string(), payload)));
}

#[test]
fn bytes_behind_the_payload_are_ignored() {
    let sender: UID = *b"0123456789ABCDEF";
    let mut bytes = encode_datagram(&sender, &strings(&["x"]));
    bytes.extend_from_slice(&[0xff; 40]);
    assert_eq!(decode_datagram(&bytes), Ok(("0123456789ABCDEF".to_string(), strings(&["x"]))));
}

#[test]
fn short_datagram_is_truncated() {
    assert_eq!(decode_datagram(&[]), Err(DecodeError::Truncated));
    assert_eq!(decode_datagram(&[b'A'; 15]), Err(DecodeError::Truncated));
}

#[test]
fn sender_that_is_not_text_is_reported() {
    let mut bytes = vec![0xffu8; 16];
    bytes.extend_from_slice(&[0u8; 8]);
    assert_eq!(decode_datagram(&bytes), Err(DecodeError::Sender));
}

#[test]
fn malformed_payloads_are_reported_not_fatal() {
    let head = b"0123456789ABCDEF".to_vec();
    let with = |tail: &[u8]| {
        let mut bytes = head.clone();
        bytes.extend_from_slice(tail);
        bytes
    };
    // No count at all, and a count cut short.
    assert_eq!(decode_datagram(&with(&[])), Err(DecodeError::Payload));
    assert_eq!(decode_datagram(&with(&[1, 0, 0])), Err(DecodeError::Payload));
    // A count that promises more strings than there are.
    assert_eq!(decode_datagram(&with(&[1, 0, 0, 0, 0, 0, 0, 0])), Err(DecodeError::Payload));
    assert_eq!(decode_datagram(&with(&[0xff; 8])), Err(DecodeError::Payload));
    // A string longer than the datagram.
    let mut long = vec![1u8, 0, 0, 0, 0, 0, 0, 0];
    long.extend_from_slice(&[9, 0, 0, 0, 0, 0, 0, 0]);
    long.extend_from_slice(b"abc");
    assert_eq!(decode_datagram(&with(&long)), Err(DecodeError::Payload));
    let mut huge = vec![1u8, 0, 0, 0, 0, 0, 0, 0];
    huge.extend_from_slice(&[0xff; 8]);
    assert_eq!(decode_datagram(&with(&huge)), Err(DecodeError::Payload));
    // A string that is not UTF-8.
    let mut bad = vec![1u8, 0, 0, 0, 0, 0, 0, 0];
    bad.extend_from_slice(&[2, 0, 0, 0, 0, 0, 0, 0]);
    bad.extend_from_slice(&[0xc3, 0x28]);
    assert_eq!(decode_datagram(&with(&bad)), Err(DecodeError::Payload));
}

#[test]
fn network_signal_lists_sender_port_and_payload() {
    let origin: UID = *b"AAAAAAAAAAAAAAAA";
    let signal = network_signal(origin, "SENDER".to_string(), 7, strings(&["a", "b"]));
    assert_eq!(signal.name(), EVENT_NETWORK_MESSAGE);
    assert_eq!(signal.name(), "NetworkMessage");
    assert_eq!(signal.component, origin);
    assert_eq!(
        signal.args,
        vec![
            C_Param::from_str("SENDER"),
            C_Param::from(7, true),
            C_Param::from_str("a"),
            C_Param::from_str("b"),
        ]
    );
}

#[test]
fn sent_message_arrives_as_event() {
    let (_bus_x, mut x) = bound(40000);
    let (mut bus_y, mut y) = bound(40000);
    assert_eq!(y.open_port(3, true), Ok(Listener { port: 3, active: true }));
    if let Some(local) = x.create_sender_socket() {
        x.sender_socket_bound(local);
    }
    let datagram = x.send("anyone", 3, strings(&["a", "b"])).expect("a datagram");
    assert_eq!(datagram.port, 40003);
    let signal = y.receive(3, &datagram.bytes).expect("an event");
    let mut emitter = bus_y.new_emitter(y.uid());
    emitter.send(&mut bus_y, signal);
    let got = match bus_y.poll(PollMode::NonBlocking, 0) {
        PollOutcome::Ready(signal) => signal,
        PollOutcome::Wait(_) => panic!("the poll asked to wait"),
    };
    assert_eq!(got.name(), "NetworkMessage");
    assert_eq!(got.component, y.uid());
    assert_eq!(got.args[0].as_str().as_bytes(), &x.uid()[..]);
    assert_eq!(got.args[1], C_Param::from(3, true));
    let payload: Vec<&str> = got.args[2..].iter().map(|p| p.as_str()).collect();
    assert_eq!(payload, vec!["a", "b"]);
}

#[test]
fn message_from_free_function_matches_method() {
    let (_bus, network) = bound(100);
    let bytes = encode_datagram(b"0123456789ABCDEF", &strings(&["p"]));
    assert_eq!(network.receive(9, &bytes), network_message(network.uid(), 9, &bytes));
    assert_eq!(network_message(network.uid(), 9, &[1, 2, 3]), Err(DecodeError::Truncated));
}

#[test]
fn new_transport_is_closed_and_unbound() {
    let network = NetworkComponent::new(1000, 512);
    assert_eq!(network.port_start(), 1000);
    assert_eq!(network.buffer_size(), 512);
    assert_eq!(network.open_count(), 0);
    assert!(!network.is_open(0));
    assert!(network.uid().iter().all(|b| b.is_ascii_hexdigit()));
    assert_eq!(network.bind_address(1), Err(OpenError::NoDestination));
}

#[test]
fn open_without_emitter_is_refused() {
    let mut network = NetworkComponent::new(1000, 512);
    assert_eq!(network.open_port(1, true), Err(OpenError::NoDestination));
    assert!(!network.is_open(1));
    assert_eq!(network.open_count(), 0);
}

#[test]
fn open_binds_port_base_plus_port() {
    let (_bus, mut network) = bound(5000);
    assert_eq!(network.address(25), Some(5025));
    assert_eq!(network.bind_address(25), Ok(5025));
    assert_eq!(network.open_port(25, true), Ok(Listener { port: 25, active: true }));
    assert!(network.is_open(25));
    assert_eq!(network.open_count(), 1);
}

#[test]
fn open_on_open_port_is_refused_and_keeps_the_listener() {
    let (_bus, mut network) = bound(5000);
    assert!(network.open_port(1, true).is_ok());
    assert_eq!(network.bind_address(1), Err(OpenError::AlreadyOpen));
    assert_eq!(network.open_port(1, true), Err(OpenError::AlreadyOpen));
    assert_eq!(network.open_port(1, false), Err(OpenError::AlreadyOpen));
    assert!(network.is_open(1));
    assert_eq!(network.open_count(), 1);
}

#[test]
fn failed_bind_stores_nothing() {
    let (_bus, mut network) = bound(5000);
    assert_eq!(network.open_port(1, false), Err(OpenError::BindFailure));
    assert!(!network.is_open(1));
    assert_eq!(network.open_count(), 0);
}

#[test]
fn port_beyond_the_range_is_invalid() {
    let (_bus, mut network) = bound(65000);
    assert_eq!(network.address(535), Some(65535));
    assert_eq!(network.address(536), None);
    assert_eq!(network.bind_address(536), Err(OpenError::InvalidPort));
    assert_eq!(network.open_port(536, true), Err(OpenError::InvalidPort));
    assert_eq!(network.open_count(), 0);
}

#[test]
fn close_then_open_succeeds() {
    let (_bus, mut network) = bound(5000);
    assert!(network.open_port(8, true).is_ok());
    assert_eq!(network.close_port(8), Some(Listener { port: 8, active: false }));
    assert!(!network.is_open(8));
    assert_eq!(network.close_port(8), None);
    assert_eq!(network.open_port(8, true), Ok(Listener { port: 8, active: true }));
    assert!(network.is_open(8));
}

#[test]
fn close_all_leaves_no_port_open() {
    let (_bus, mut network) = bound(5000);
    for port in [4u16, 9, 2, 77] {
        assert!(network.open_port(port, true).is_ok());
    }
    let mut closed = network.close_all();
    closed.sort_by_key(|l| l.port);
    let ports: Vec<u16> = closed.iter().map(|l| l.port).collect();
    assert_eq!(ports, vec![2, 4, 9, 77]);
    assert!(closed.iter().all(|l| !l.active));
    assert_eq!(network.open_count(), 0);
    for port in [4u16, 9, 2, 77] {
        assert!(!network.is_open(port));
    }
    assert!(network.close_all().is_empty());
    assert!(network.open_port(9, true).is_ok());
}

#[test]
fn unbinding_the_emitter_keeps_ports_open() {
    let (_bus, mut network) = bound(5000);
    assert!(network.open_port(1, true).is_ok());
    let id = network.uid();
    network.listen(None);
    assert!(network.is_open(1));
    assert_eq!(network.uid(), id);
    assert_eq!(network.open_port(2, true), Err(OpenError::NoDestination));
}

#[test]
fn nothing_is_sent_without_outbound_socket() {
    let (_bus, network) = bound(5000);
    assert_eq!(network.send("", 1, strings(&["a"])), None);
    assert_eq!(network.broadcast(1, strings(&["a"])), None);
}

#[test]
fn outbound_socket_is_made_once_in_the_high_range() {
    let (_bus, mut network) = bound(5000);
    for _ in 0..200 {
        let local = network.create_sender_socket().expect("no socket yet");
        assert!(SENDER_PORT_FIRST <= local && local < SENDER_PORT_END);
        assert!(local > 30000);
    }
    let drawn: Vec<u16> = (0..64).filter_map(|_| network.create_sender_socket()).collect();
    assert!(drawn.iter().any(|port| *port != drawn[0]));
    network.sender_socket_bound(31000);
    assert_eq!(network.create_sender_socket(), None);
    network.sender_socket_bound(32000);
    assert_eq!(network.create_sender_socket(), None);
}

#[test]
fn listener_records_follow_open_and_close() {
    let (_bus, mut network) = bound(5000);
    assert_eq!(network.listener(3), None);
    assert!(network.open_port(3, true).is_ok());
    assert_eq!(network.listener(3), Some(Listener { port: 3, active: true }));
    assert_eq!(network.listener(4), None);
    network.close_port(3);
    assert_eq!(network.listener(3), None);
}

#[test]
fn send_and_broadcast_build_the_same_datagram() {
    let (_bus, mut network) = bound(5000);
    network.sender_socket_bound(31000);
    let sent = network.send("someone", 6, strings(&["a", "b"])).expect("a datagram");
    let cast = network.broadcast(6, strings(&["a", "b"])).expect("a datagram");
    assert_eq!(sent, cast);
    assert_eq!(sent.port, 5006);
    assert_eq!(sent.bytes, encode_datagram(&network.uid(), &strings(&["a", "b"])));
    assert_eq!(&sent.bytes[..16], &network.uid()[..]);
}

#[test]
fn send_to_port_beyond_the_range_is_dropped() {
    let (_bus, mut network) = bound(65535);
    network.sender_socket_bound(31000);
    assert!(network.send("", 0, Vec::new()).is_some());
    assert_eq!(network.send("", 1, Vec::new()), None);
}
