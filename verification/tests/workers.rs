use phantun::admission::FIRST_PACKET_TIMEOUT_SECS;
use phantun::multi_stream::{MultiStream, RoundRobin};
use phantun::relay::{
    connection_workers, legacy_workers, monitor_step, stream_group_workers, MonitorEffect,
    MonitorEvent, Relay, RelayAction, RelayEvent, Watched, Worker, UDP_TTL_SECS,
};

#[test]
fn times_are_those_of_the_protocol() {
    assert_eq!(UDP_TTL_SECS, 180);
    assert_eq!(FIRST_PACKET_TIMEOUT_SECS, 5);
}

/// A worker of a connection of so many streams, with a turn of its own.
struct Harness {
    relay: Relay,
    turns: RoundRobin,
    streams: usize,
}

impl Harness {
    fn new(first_packet: bool, streams: usize) -> Harness {
        Harness { relay: Relay::new(first_packet), turns: RoundRobin::new(), streams }
    }

    fn step(&mut self, event: RelayEvent) -> RelayAction {
        self.relay.step(&mut self.turns, self.streams, event)
    }
}

#[test]
fn tcp_packets_go_to_udp() {
    let mut worker = Harness::new(false, 1);
    assert_eq!(worker.step(RelayEvent::TcpReceived(Some(100))), RelayAction::SendUdp(100));
    assert_eq!(worker.step(RelayEvent::UdpSent(true)), RelayAction::NotifyAndListen);
    assert_eq!(worker.step(RelayEvent::TcpReceived(Some(1))), RelayAction::SendUdp(1));
    assert_eq!(worker.step(RelayEvent::UdpSent(false)), RelayAction::CancelAndStop);
}

#[test]
fn empty_tcp_packet_is_noted_but_not_forwarded() {
    let mut worker = Harness::new(false, 1);
    assert_eq!(worker.step(RelayEvent::TcpReceived(Some(0))), RelayAction::NotifyAndListen);
    assert_eq!(worker.step(RelayEvent::Cancelled), RelayAction::Stop);
}

#[test]
fn closed_stream_cancels_the_connection() {
    let mut worker = Harness::new(false, 1);
    assert_eq!(worker.step(RelayEvent::TcpReceived(None)), RelayAction::CancelAndStop);
}

#[test]
fn udp_packets_go_to_tcp() {
    let mut worker = Harness::new(false, 1);
    assert_eq!(
        worker.step(RelayEvent::UdpReceived(0)),
        RelayAction::SendTcp { stream: 0, size: 0 }
    );
    assert_eq!(worker.step(RelayEvent::TcpSent(true)), RelayAction::NotifyAndListen);
    assert_eq!(
        worker.step(RelayEvent::UdpReceived(1400)),
        RelayAction::SendTcp { stream: 0, size: 1400 }
    );
    assert_eq!(worker.step(RelayEvent::TcpSent(false)), RelayAction::CancelAndStop);
}

#[test]
fn datagrams_go_to_the_streams_in_turn() {
    let mut worker = Harness::new(false, 3);
    for k in 0..10usize {
        assert_eq!(
            worker.step(RelayEvent::UdpReceived(100 + k)),
            RelayAction::SendTcp { stream: k % 3, size: 100 + k }
        );
        assert_eq!(worker.step(RelayEvent::TcpSent(true)), RelayAction::NotifyAndListen);
        // What comes by TCP takes no turn.
        assert_eq!(worker.step(RelayEvent::TcpReceived(Some(0))), RelayAction::NotifyAndListen);
    }
}

#[test]
fn workers_of_a_connection_share_the_turn() {
    let mut connection = MultiStream::new(vec!["a", "b", "c"]);
    let mut workers = [Relay::new(false), Relay::new(false)];
    for k in 0..6usize {
        let worker = &mut workers[k % 2];
        assert_eq!(
            connection.relay_step(worker, RelayEvent::UdpReceived(k)),
            RelayAction::SendTcp { stream: k % 3, size: k }
        );
        assert_eq!(
            connection.relay_step(worker, RelayEvent::TcpSent(true)),
            RelayAction::NotifyAndListen
        );
    }
    assert_eq!(*connection.get_next_socket(), "a");
    assert_eq!(
        connection.relay_step(&mut workers[0], RelayEvent::UdpReceived(9)),
        RelayAction::SendTcp { stream: 1, size: 9 }
    );
}

#[test]
fn failed_udp_is_left_alone_until_a_packet_comes_by_tcp() {
    let mut worker = Harness::new(false, 2);
    assert_eq!(worker.step(RelayEvent::UdpFailed), RelayAction::ListenTcp);
    assert_eq!(worker.step(RelayEvent::TcpReceived(Some(5))), RelayAction::SendUdp(5));
    assert_eq!(worker.step(RelayEvent::UdpSent(true)), RelayAction::NotifyAndListen);
    assert_eq!(
        worker.step(RelayEvent::UdpReceived(7)),
        RelayAction::SendTcp { stream: 0, size: 7 }
    );

    let mut worker = Harness::new(false, 2);
    assert_eq!(worker.step(RelayEvent::UdpFailed), RelayAction::ListenTcp);
    assert_eq!(worker.step(RelayEvent::Cancelled), RelayAction::Stop);
}

#[test]
fn first_packet_is_forwarded_before_any_other() {
    let mut worker = Harness::new(true, 1);
    assert_eq!(worker.step(RelayEvent::UdpSent(true)), RelayAction::Listen);
    assert_eq!(worker.step(RelayEvent::TcpReceived(Some(3))), RelayAction::SendUdp(3));
    assert_eq!(worker.step(RelayEvent::UdpSent(true)), RelayAction::NotifyAndListen);

    let mut worker = Harness::new(true, 1);
    assert_eq!(worker.step(RelayEvent::UdpSent(false)), RelayAction::CancelAndStop);
}

#[test]
fn each_packet_is_noted_once() {
    let mut worker = Harness::new(false, 1);
    let events = [
        RelayEvent::TcpReceived(Some(0)),
        RelayEvent::UdpReceived(10),
        RelayEvent::TcpSent(true),
        RelayEvent::UdpFailed,
        RelayEvent::TcpReceived(Some(20)),
        RelayEvent::UdpSent(true),
    ];
    let noted = events
        .iter()
        .filter(|e| worker.step(**e) == RelayAction::NotifyAndListen)
        .count();
    assert_eq!(noted, 3);
}

#[test]
fn group_workers_cover_streams_and_cores() {
    assert_eq!(
        stream_group_workers(2, 2),
        vec![
            Worker::TcpToUdp { stream: 0, worker: 0 },
            Worker::TcpToUdp { stream: 0, worker: 1 },
            Worker::TcpToUdp { stream: 1, worker: 0 },
            Worker::TcpToUdp { stream: 1, worker: 1 },
            Worker::UdpToTcp { worker: 0 },
            Worker::UdpToTcp { worker: 1 },
        ]
    );
    assert!(stream_group_workers(2, 0).is_empty());
}

#[test]
fn connection_workers_start_with_udp() {
    assert_eq!(
        connection_workers(2, 1),
        vec![
            Worker::UdpToTcp { worker: 0 },
            Worker::TcpToUdp { stream: 0, worker: 0 },
            Worker::TcpToUdp { stream: 1, worker: 0 },
        ]
    );
}

#[test]
fn one_legacy_worker_forwards_the_first_packet() {
    assert_eq!(
        legacy_workers(3),
        vec![
            Worker::Both { worker: 0, first_packet: true },
            Worker::Both { worker: 1, first_packet: false },
            Worker::Both { worker: 2, first_packet: false },
        ]
    );
}

#[test]
fn packets_keep_a_connection_alive() {
    for watched in [Watched::Connection, Watched::Group, Watched::Legacy] {
        assert_eq!(monitor_step(watched, MonitorEvent::PacketSeen), vec![]);
    }
}

#[test]
fn idle_connection_is_removed_and_then_closed() {
    for watched in [Watched::Connection, Watched::Group] {
        assert_eq!(
            monitor_step(watched, MonitorEvent::Expired),
            vec![MonitorEffect::Remove, MonitorEffect::Cancel, MonitorEffect::Stop]
        );
    }
    assert_eq!(
        monitor_step(Watched::Legacy, MonitorEvent::Expired),
        vec![MonitorEffect::Cancel, MonitorEffect::Stop]
    );
}

#[test]
fn cancelled_connection_leaves_the_table() {
    assert_eq!(
        monitor_step(Watched::Connection, MonitorEvent::Cancelled),
        vec![MonitorEffect::Remove, MonitorEffect::Stop]
    );
}
