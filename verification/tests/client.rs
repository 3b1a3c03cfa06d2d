use phantun::addr::{bind_address, select_remote, unspecified_for, IpAddress, SocketAddress};
use phantun::config::{parse_num_streams, NumStreamsError};
use phantun::connections::{ConnectionTable, Route};
use phantun::dial::{handshake_to_send, Dial, DialEvent, DialStep};
use phantun::multi_stream::{MultiStream, RoundRobin};
use phantun::protocol::parse_multistream_handshake;
use phantun::stream_id::StreamId;

fn v4(ip: u32, port: u16) -> SocketAddress {
    SocketAddress::V4 { ip, port }
}

fn v6(ip: u128, port: u16) -> SocketAddress {
    SocketAddress::V6 { ip, port, flowinfo: 5, scope_id: 6 }
}

#[test]
fn number_of_streams_is_read() {
    assert_eq!(parse_num_streams("1"), Ok(1));
    assert_eq!(parse_num_streams("+16"), Ok(16));
    assert_eq!(parse_num_streams("007"), Ok(7));
    assert_eq!(parse_num_streams(&usize::MAX.to_string()), Ok(usize::MAX));
}

#[test]
fn no_streams_are_refused() {
    assert_eq!(parse_num_streams("0"), Err(NumStreamsError::Zero));
    assert_eq!(parse_num_streams("+000"), Err(NumStreamsError::Zero));
}

#[test]
fn what_is_no_number_is_refused() {
    for text in ["", "+", "-1", "-0", " 1", "1 ", "1_000", "two", "1.5", "++1", "340282366920938463463374607431768211456"] {
        assert_eq!(parse_num_streams(text), Err(NumStreamsError::NotANumber), "{text}");
    }
}

#[test]
fn packets_take_turns_from_the_first_stream_on() {
    let mut streams = MultiStream::new(vec!["a", "b", "c"]);
    assert_eq!(streams.get_all_sockets(), ["a", "b", "c"]);
    let taken: Vec<&str> = (0..7).map(|_| *streams.get_next_socket()).collect();
    assert_eq!(taken, vec!["a", "b", "c", "a", "b", "c", "a"]);
    assert_eq!(streams.get_all_sockets(), ["a", "b", "c"]);
}

#[test]
fn single_stream_takes_every_packet() {
    let mut streams = MultiStream::new(vec![9]);
    for _ in 0..5 {
        assert_eq!(*streams.get_next_socket(), 9);
    }
}

#[test]
fn round_robin_is_fair_to_each_stream() {
    let mut counter = RoundRobin::new();
    for _ in 0..3 {
        counter.next_index(7);
    }
    let mut taken = [0u32; 5];
    for _ in 0..5 {
        taken[counter.next_index(5)] += 1;
    }
    assert_eq!(taken, [1; 5]);
}

#[test]
fn load_is_balanced_over_any_number_of_packets() {
    for start in 0..4usize {
        for packets in 0..14u32 {
            let mut counter = RoundRobin::new();
            for _ in 0..start {
                counter.next_index(4);
            }
            let mut taken = [0u32; 4];
            for _ in 0..packets {
                taken[counter.next_index(4)] += 1;
            }
            for count in taken {
                assert!(count == packets / 4 || count == packets / 4 + 1);
            }
            assert_eq!(taken.iter().sum::<u32>(), packets);
            if packets == 6 && start == 3 {
                assert_eq!(taken, [2, 1, 1, 2]);
            }
        }
    }
}

#[test]
fn connection_of_several_streams_opens() {
    let id = Some(StreamId { value: 77 });
    let user = b"user".to_vec();
    let mut step: DialStep<u32> = Dial::start(3, id, Some(user.clone()));
    for stream in 0..3usize {
        let dial = match step {
            DialStep::Connect(dial) => dial,
            other => panic!("{other:?}"),
        };
        step = dial.step(DialEvent::Connected(100 + stream as u32));
        let (dial, packet) = match step {
            DialStep::Announce { dial, packet } => (dial, packet),
            other => panic!("{other:?}"),
        };
        assert_eq!(packet, handshake_to_send(&id, stream, 3, Some(&user[..])));
        assert_eq!(dial.socket(), Some(&(100 + stream as u32)));
        step = dial.step(DialEvent::Sent);
    }
    let dial = match step {
        DialStep::Forward(dial) => dial,
        other => panic!("{other:?}"),
    };
    assert_eq!(dial.socket(), Some(&100));
    match dial.step(DialEvent::Sent) {
        DialStep::Open(mut streams) => {
            assert_eq!(streams.get_all_sockets(), [100, 101, 102]);
            assert_eq!(*streams.get_next_socket(), 100);
        }
        other => panic!("{other:?}"),
    }
}

#[test]
fn single_stream_without_user_packet_sends_nothing_first() {
    for user in [None, Some(vec![])] {
        let step: DialStep<u32> = Dial::start(1, None, user);
        let dial = match step {
            DialStep::Connect(dial) => dial,
            other => panic!("{other:?}"),
        };
        assert_eq!(dial.socket(), None);
        match dial.step(DialEvent::Connected(1)) {
            DialStep::Forward(dial) => assert_eq!(dial.socket(), Some(&1)),
            other => panic!("{other:?}"),
        }
    }
}

#[test]
fn single_stream_sends_the_user_packet_first() {
    let step: DialStep<u32> = Dial::start(1, None, Some(b"hi".to_vec()));
    let dial = match step {
        DialStep::Connect(dial) => dial,
        other => panic!("{other:?}"),
    };
    match dial.step(DialEvent::Connected(1)) {
        DialStep::Announce { packet, .. } => assert_eq!(packet, b"hi"),
        other => panic!("{other:?}"),
    }
}

fn connect(step: DialStep<u32>, socket: u32) -> DialStep<u32> {
    match step {
        DialStep::Connect(dial) => dial.step(DialEvent::Connected(socket)),
        other => panic!("{other:?}"),
    }
}

#[test]
fn any_failure_gives_up() {
    match Dial::<u32>::start(2, None, None) {
        DialStep::Connect(dial) => {
            assert!(matches!(dial.step(DialEvent::ConnectFailed), DialStep::GiveUp));
        }
        other => panic!("{other:?}"),
    }
    match connect(Dial::start(2, None, None), 1) {
        DialStep::Connect(dial) => {
            assert!(matches!(dial.step(DialEvent::ConnectFailed), DialStep::GiveUp));
        }
        other => panic!("{other:?}"),
    }
    match connect(Dial::start(2, Some(StreamId { value: 1 }), None), 1) {
        DialStep::Announce { dial, .. } => {
            assert!(matches!(dial.step(DialEvent::SendFailed), DialStep::GiveUp));
        }
        other => panic!("{other:?}"),
    }
    match connect(connect(Dial::start(2, None, None), 1), 2) {
        DialStep::Forward(dial) => {
            assert!(matches!(dial.step(DialEvent::SendFailed), DialStep::GiveUp));
        }
        other => panic!("{other:?}"),
    }
}

#[test]
fn first_eligible_address_is_chosen() {
    let addrs = vec![v6(1, 80), v4(2, 80), v4(3, 80)];
    assert_eq!(select_remote(&addrs, false), Some(v6(1, 80)));
    assert_eq!(select_remote(&addrs, true), Some(v4(2, 80)));
    assert_eq!(select_remote(&vec![v6(1, 80)], true), None);
    assert_eq!(select_remote(&vec![], false), None);
    assert!(v6(1, 80).is_ipv6() && !v6(1, 80).is_ipv4());
    assert!(v4(1, 80).is_ipv4() && !v4(1, 80).is_ipv6());
}

#[test]
fn reply_comes_from_where_the_client_sent_to() {
    assert_eq!(bind_address(&v4(9, 1000), &IpAddress::V4(8), 53), Some(v4(8, 53)));
    assert_eq!(
        bind_address(&v6(9, 1000), &IpAddress::V6(8), 53),
        Some(SocketAddress::V6 { ip: 8, port: 53, flowinfo: 5, scope_id: 6 })
    );
    assert_eq!(bind_address(&v4(9, 1000), &IpAddress::V6(8), 53), None);
    assert_eq!(bind_address(&v6(9, 1000), &IpAddress::V4(8), 53), None);
}

#[test]
fn unspecified_address_has_the_remote_family() {
    assert_eq!(unspecified_for(&v4(9, 1000)), v4(0, 0));
    assert_eq!(
        unspecified_for(&v6(9, 1000)),
        SocketAddress::V6 { ip: 0, port: 0, flowinfo: 0, scope_id: 0 }
    );
}

#[test]
fn connections_are_found_by_client() {
    let mut table: ConnectionTable<&str> = ConnectionTable::new();
    assert_eq!(table.get(&v4(1, 1)), None);
    table.insert(v4(1, 1), "a");
    table.insert(v4(1, 2), "b");
    table.insert(v6(1, 1), "c");
    assert_eq!(table.get(&v4(1, 1)), Some(&"a"));
    assert_eq!(table.get(&v4(1, 2)), Some(&"b"));
    assert_eq!(table.get(&v6(1, 1)), Some(&"c"));
    assert_eq!(
        table.get(&SocketAddress::V6 { ip: 1, port: 1, flowinfo: 5, scope_id: 7 }),
        None
    );
    table.remove(&v4(1, 1));
    assert_eq!(table.get(&v4(1, 1)), None);
    assert_eq!(table.get(&v4(1, 2)), Some(&"b"));
    assert_eq!(table.get(&v6(1, 1)), Some(&"c"));
    table.remove(&v4(1, 1));
    table.insert(v4(1, 1), "d");
    assert_eq!(table.get(&v4(1, 1)), Some(&"d"));
}

#[test]
fn only_new_clients_are_dialled() {
    let mut table: ConnectionTable<&str> = ConnectionTable::new();
    assert!(matches!(table.route(&v4(1, 1)), Route::Dial));
    table.insert(v4(1, 1), "a");
    assert!(matches!(table.route(&v4(1, 1)), Route::Forward(&"a")));
    assert!(matches!(table.route(&v4(1, 2)), Route::Dial));
    table.remove(&v4(1, 1));
    assert!(matches!(table.route(&v4(1, 1)), Route::Dial));
}

#[test]
fn streams_are_announced_only_if_they_are_several() {
    for user in [None, Some(b"user".to_vec())] {
        let mut step: DialStep<usize> = Dial::begin(3, user.clone());
        let mut seen = None;
        for stream in 0..3usize {
            let dial = match step {
                DialStep::Connect(dial) => dial,
                other => panic!("{other:?}"),
            };
            assert_eq!(dial.index(), stream);
            let id = dial.stream_id().unwrap();
            assert!(seen.is_none() || seen == Some(id));
            seen = Some(id);
            let (dial, packet) = match dial.step(DialEvent::Connected(stream)) {
                DialStep::Announce { dial, packet } => (dial, packet),
                other => panic!("{other:?}"),
            };
            let info = parse_multistream_handshake(&packet).unwrap();
            assert_eq!(info.stream_id, id);
            assert_eq!(usize::from(info.stream_index), stream);
            assert_eq!(info.total_streams, 3);
            assert_eq!(info.user_payload, user);
            step = dial.step(DialEvent::Sent);
        }
        assert!(matches!(step, DialStep::Forward(_)));
    }

    let step: DialStep<usize> = Dial::begin(1, Some(b"user".to_vec()));
    let dial = match step {
        DialStep::Connect(dial) => dial,
        other => panic!("{other:?}"),
    };
    assert_eq!(dial.stream_id(), None);
    match dial.step(DialEvent::Connected(7)) {
        DialStep::Announce { packet, .. } => {
            assert_eq!(packet, b"user");
            assert!(parse_multistream_handshake(&packet).is_none());
        }
        other => panic!("{other:?}"),
    }
}
