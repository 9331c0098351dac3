//! The signalling link, over the protocol machine of `rtc_sctp`.

use std::sync::Arc;
use std::time::{Duration, Instant};

use bytes::Bytes;
use midn_core::transport::{
    on_driver_event, AssociationEvent, DriverAction, DriverEvent, LinkEvent, LinkState, TransportError,
    DEFAULT_STREAM_ID,
};
use rtc_sctp::{
    Association, ClientConfig, DatagramEvent, Endpoint, EndpointConfig, Payload, PayloadProtocolIdentifier,
    ServerConfig, TransportConfig,
};
use rtc_shared::TransportProtocol;

/// Two endpoints, without a socket: what one wants to send is handed to the
/// other.
#[test]
fn two_endpoints_handshake_and_exchange_data_fully_offline() {
    let client_addr = "127.0.0.1:1".parse().unwrap();
    let server_addr = "127.0.0.1:2".parse().unwrap();

    let mut client_ep =
        Endpoint::new(client_addr, TransportProtocol::UDP, Arc::new(EndpointConfig::new()), None);
    let mut server_ep = Endpoint::new(
        server_addr,
        TransportProtocol::UDP,
        Arc::new(EndpointConfig::new()),
        Some(Arc::new(ServerConfig::new(TransportConfig::default()))),
    );

    let (_client_handle, mut client_assoc) =
        client_ep.connect(ClientConfig::default(), server_addr).expect("connect");
    let mut server_assoc: Option<Association> = None;

    let mut now = Instant::now();
    let mut client_state = LinkState::new();
    let mut server_state = LinkState::new();
    let mut client_connected = false;
    let mut server_connected = false;
    let mut client_wrote = false;
    let mut received_on_server: Option<Bytes> = None;

    for _round in 0..200 {
        while let Some(tm) = client_assoc.poll_transmit(now) {
            if let Payload::RawEncode(bufs) = tm.message {
                for b in bufs {
                    match server_ep.handle(now, client_addr, None, b) {
                        Some((_, DatagramEvent::NewAssociation(assoc))) => server_assoc = Some(assoc),
                        Some((_, DatagramEvent::AssociationEvent(e))) => {
                            if let Some(a) = server_assoc.as_mut() {
                                a.handle_event(e);
                            }
                        }
                        None => {}
                    }
                }
            }
        }

        if let Some(a) = server_assoc.as_mut() {
            while let Some(tm) = a.poll_transmit(now) {
                if let Payload::RawEncode(bufs) = tm.message {
                    for b in bufs {
                        if let Some((_, DatagramEvent::AssociationEvent(e))) =
                            client_ep.handle(now, server_addr, None, b)
                        {
                            client_assoc.handle_event(e);
                        }
                    }
                }
            }
        }

        for event in client_state.drain(&mut client_assoc) {
            if let LinkEvent::Connected = event {
                client_connected = true;
            }
        }
        if let Some(a) = server_assoc.as_mut() {
            for event in server_state.drain(a) {
                match event {
                    LinkEvent::Connected => server_connected = true,
                    LinkEvent::Message(b) => received_on_server = Some(b),
                    LinkEvent::Lost { reason } => panic!("lost: {reason}"),
                }
            }
        }

        if client_connected && server_connected && !client_wrote {
            assert!(client_state.check_ready().is_ok());
            client_state
                .write(&mut client_assoc, &Bytes::from_static(b"hello from client"))
                .expect("write");
            client_wrote = true;
        }

        now += Duration::from_millis(20);
        if received_on_server.is_some() {
            break;
        }
    }

    assert!(client_connected, "client never observed Event::Connected");
    assert!(server_connected, "server never observed Event::Connected");
    assert_eq!(
        received_on_server.as_deref(),
        Some(&b"hello from client"[..]),
        "server never reassembled the client's message",
    );
}

#[test]
fn nothing_waits_in_a_drained_association() {
    let local = "127.0.0.1:1".parse().unwrap();
    let mut endpoint = Endpoint::new(local, TransportProtocol::UDP, Arc::new(EndpointConfig::new()), None);
    let remote = "127.0.0.1:2".parse().unwrap();
    let (_, mut association) = endpoint.connect(ClientConfig::default(), remote).expect("connect");
    let mut state = LinkState::new();
    assert!(state.drain(&mut association).is_empty());
    assert!(!state.stream_ready);
    assert!(association.poll().is_none());
}

#[test]
fn a_write_is_refused_without_a_stream() {
    let local = "127.0.0.1:1".parse().unwrap();
    let mut endpoint = Endpoint::new(local, TransportProtocol::UDP, Arc::new(EndpointConfig::new()), None);
    let remote = "127.0.0.1:2".parse().unwrap();
    let (_, mut association) = endpoint.connect(ClientConfig::default(), remote).expect("connect");
    let message = Bytes::from_static(b"too early");
    let early = LinkState::new();
    assert!(matches!(early.write(&mut association, &message), Err(TransportError::NotReady)));
    let ready = LinkState { stream_ready: true, lost: false };
    assert!(matches!(ready.write(&mut association, &message), Err(TransportError::Sctp(_))));
    let gone = LinkState { stream_ready: true, lost: true };
    assert!(matches!(gone.write(&mut association, &message), Err(TransportError::Closed)));
}

#[test]
fn events_are_reported_to_the_user() {
    let mut state = LinkState::new();
    assert!(matches!(state.check_ready(), Err(TransportError::NotReady)));
    assert!(state.on_association_event(AssociationEvent::Other).is_empty());
    let out = state.on_association_event(AssociationEvent::Connected);
    assert!(matches!(out[..], [LinkEvent::Connected]));
    assert!(state.check_ready().is_ok());
    let out = state.on_association_event(AssociationEvent::Read(vec![
        Bytes::from_static(b"a"),
        Bytes::from_static(b"b"),
    ]));
    assert!(matches!(&out[..], [LinkEvent::Message(a), LinkEvent::Message(b)] if &a[..] == b"a" && &b[..] == b"b"));
    let out = state.on_association_event(AssociationEvent::Lost { reason: "gone".to_string() });
    assert!(matches!(&out[..], [LinkEvent::Lost { reason }] if reason == "gone"));
    let mut state = LinkState::new();
    let out = state.on_association_event(AssociationEvent::HandshakeFailed { reason: "no".to_string() });
    assert!(matches!(&out[..], [LinkEvent::Lost { reason }] if reason == "handshake failed: no"));
}

#[test]
fn nothing_is_reported_of_a_lost_link() {
    let mut state = LinkState::new();
    state.on_association_event(AssociationEvent::Connected);
    let out = state.on_association_event(AssociationEvent::Lost { reason: "gone".to_string() });
    assert_eq!(out.len(), 1);
    assert!(state.lost);
    let late = AssociationEvent::Read(vec![Bytes::from_static(b"late")]);
    assert!(state.on_association_event(late).is_empty());
    assert!(state.on_association_event(AssociationEvent::Lost { reason: "again".to_string() }).is_empty());
    assert!(state.on_association_event(AssociationEvent::Connected).is_empty());
    assert!(matches!(state.check_ready(), Err(TransportError::Closed)));
    assert!(matches!(on_driver_event(&state, DriverEvent::Outbound), DriverAction::Stop));
    assert!(matches!(on_driver_event(&state, DriverEvent::Datagram), DriverAction::Stop));
}

/// Takes two endpoints through their handshake, lets the client `say`
/// something once both are connected, and returns the state of the client's
/// link with what either side was told. `prepare` sees the client's
/// association first.
fn talk(
    prepare: impl Fn(&mut Association),
    say: impl Fn(&LinkState, &mut Association),
) -> (LinkState, Vec<LinkEvent>, Vec<LinkEvent>) {
    let client_addr = "127.0.0.1:1".parse().unwrap();
    let server_addr = "127.0.0.1:2".parse().unwrap();
    let mut client_ep =
        Endpoint::new(client_addr, TransportProtocol::UDP, Arc::new(EndpointConfig::new()), None);
    let mut server_ep = Endpoint::new(
        server_addr,
        TransportProtocol::UDP,
        Arc::new(EndpointConfig::new()),
        Some(Arc::new(ServerConfig::new(TransportConfig::default()))),
    );
    let (_, mut client) = client_ep.connect(ClientConfig::default(), server_addr).expect("connect");
    prepare(&mut client);
    let mut server: Option<Association> = None;
    let mut now = Instant::now();
    let (mut client_state, mut server_state) = (LinkState::new(), LinkState::new());
    let (mut client_told, mut server_told) = (Vec::new(), Vec::new());
    let mut said = false;
    for _round in 0..60 {
        while let Some(tm) = client.poll_transmit(now) {
            if let Payload::RawEncode(bufs) = tm.message {
                for b in bufs {
                    match server_ep.handle(now, client_addr, None, b) {
                        Some((_, DatagramEvent::NewAssociation(a))) => server = Some(a),
                        Some((_, DatagramEvent::AssociationEvent(e))) => server.as_mut().unwrap().handle_event(e),
                        None => {}
                    }
                }
            }
        }
        if let Some(a) = server.as_mut() {
            while let Some(tm) = a.poll_transmit(now) {
                if let Payload::RawEncode(bufs) = tm.message {
                    for b in bufs {
                        if let Some((_, DatagramEvent::AssociationEvent(e))) =
                            client_ep.handle(now, server_addr, None, b)
                        {
                            client.handle_event(e);
                        }
                    }
                }
            }
            server_told.extend(server_state.drain(a));
        }
        client_told.extend(client_state.drain(&mut client));
        if client_state.stream_ready && server_state.stream_ready && !said {
            say(&client_state, &mut client);
            said = true;
        }
        now += Duration::from_millis(20);
    }
    assert!(said, "the handshake did not complete");
    (client_state, client_told, server_told)
}

#[test]
fn a_stream_that_is_there_already_counts_as_open() {
    let (state, client_told, server_told) = talk(
        |client| {
            client.open_stream(DEFAULT_STREAM_ID, PayloadProtocolIdentifier::Unknown).expect("open_stream");
        },
        |state, client| state.write(client, &Bytes::from_static(b"hello")).expect("write"),
    );
    assert!(state.stream_ready);
    assert!(matches!(client_told[..], [LinkEvent::Connected]));
    assert!(matches!(&server_told[..], [LinkEvent::Connected, LinkEvent::Message(m)] if &m[..] == b"hello"));
}

#[test]
fn messages_on_other_streams_are_not_reported() {
    let (_, _, server_told) = talk(
        |_| {},
        |state, client| {
            client
                .open_stream(5, PayloadProtocolIdentifier::Unknown)
                .expect("open_stream")
                .write_with_ppi(b"aside", PayloadProtocolIdentifier::Unknown)
                .expect("write_with_ppi");
            state.write(client, &Bytes::from_static(b"hello")).expect("write");
        },
    );
    assert!(matches!(&server_told[..], [LinkEvent::Connected, LinkEvent::Message(m)] if &m[..] == b"hello"));
}

#[test]
fn the_driver_sends_nothing_early() {
    let mut state = LinkState::new();
    assert!(matches!(on_driver_event(&state, DriverEvent::Outbound), DriverAction::Refuse));
    state.stream_ready = true;
    assert!(matches!(on_driver_event(&state, DriverEvent::Outbound), DriverAction::Write));
    assert!(matches!(on_driver_event(&state, DriverEvent::Datagram), DriverAction::Feed));
    assert!(matches!(on_driver_event(&state, DriverEvent::Timeout), DriverAction::Tick));
    assert!(matches!(on_driver_event(&state, DriverEvent::UserGone), DriverAction::Stop));
    let failed = DriverEvent::SocketError { text: "oops".to_string() };
    assert!(matches!(
        on_driver_event(&state, failed),
        DriverAction::Lose { reason } if reason == "socket recv error: oops"
    ));
}
