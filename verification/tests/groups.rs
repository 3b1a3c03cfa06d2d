use phantun::protocol::{parse_multistream_handshake, MultiStreamInfo};
use phantun::dial::handshake_to_send;
use phantun::stream_group::{GroupTable, StreamGroup};
use phantun::stream_id::StreamId;

fn info(id: u128, index: u8, total: u8) -> MultiStreamInfo {
    MultiStreamInfo {
        stream_id: StreamId { value: id },
        stream_index: index,
        total_streams: total,
        user_payload: None,
    }
}

fn sorted(mut sockets: Vec<u32>) -> Vec<u32> {
    sockets.sort();
    sockets
}

#[test]
fn new_group_is_empty() {
    let group: StreamGroup<u32, &str> = StreamGroup::new(StreamId { value: 5 }, 3, "udp");
    assert_eq!(group.stream_id().value, 5);
    assert_eq!(group.total_streams(), 3);
    assert_eq!(group.received_count(), 0);
    assert_eq!(*group.udp_sock(), "udp");
    assert!(group.get_all_sockets().is_empty());
}

#[test]
fn group_is_complete_with_its_last_stream() {
    let mut group: StreamGroup<u32, ()> = StreamGroup::new(StreamId { value: 5 }, 3, ());
    assert!(!group.add_socket(2, 102));
    assert!(!group.add_socket(0, 100));
    assert_eq!(group.received_count(), 2);
    assert!(group.add_socket(1, 101));
    assert_eq!(group.received_count(), 3);
    assert_eq!(sorted(group.get_all_sockets()), vec![100, 101, 102]);
}

#[test]
fn taken_index_is_refused() {
    let mut group: StreamGroup<u32, ()> = StreamGroup::new(StreamId { value: 5 }, 2, ());
    assert!(!group.add_socket(1, 100));
    assert!(!group.add_socket(1, 200));
    assert_eq!(group.received_count(), 1);
    assert_eq!(group.get_all_sockets(), vec![100]);
    assert!(group.add_socket(0, 300));
    assert!(!group.add_socket(0, 400));
}

#[test]
fn last_needed_index_completes_the_group_among_refused_streams() {
    let mut group: StreamGroup<u32, ()> = StreamGroup::new(StreamId { value: 5 }, 3, ());
    let joins = [(4u8, false), (4, false), (9, false), (4, false), (9, false), (0, true),
        (0, false), (1, false), (2, false)];
    for (index, complete) in joins {
        assert_eq!(group.add_socket(index, 0), complete);
    }

    let mut group: StreamGroup<u32, ()> = StreamGroup::new(StreamId { value: 5 }, 3, ());
    for index in [4u8, 9, 9, 4, 4, 9] {
        assert!(!group.add_socket(index, 0));
    }
}

#[test]
fn group_of_one_is_complete_at_once() {
    let mut group: StreamGroup<u32, ()> = StreamGroup::new(StreamId { value: 5 }, 1, ());
    assert!(group.add_socket(200, 1));
}

#[test]
fn group_completes_once_for_every_announced_number() {
    for total in 0..=255u8 {
        let mut group: StreamGroup<u32, ()> = StreamGroup::new(StreamId { value: 1 }, total, ());
        let mut completions = vec![];
        for index in (0..=255u8).rev() {
            if group.add_socket(index, index as u32) {
                completions.push(group.get_all_sockets().len());
            }
            assert!(!group.add_socket(index, 999));
        }
        let full = if total == 0 { 256 } else { total as usize };
        assert_eq!(completions, vec![full]);
        assert_eq!(group.received_count(), 0);
    }
}

#[test]
fn first_stream_creates_its_group() {
    let mut table: GroupTable<u32, &str> = GroupTable::new();
    let id = StreamId { value: 7 };
    assert!(!table.contains(&id));
    assert!(table.get(&id).is_none());
    assert!(!table.join(&info(7, 0, 2), 10, Some("udp")));
    assert!(table.contains(&id));
    let group = table.get(&id).unwrap();
    assert_eq!(group.stream_id(), id);
    assert_eq!(group.total_streams(), 2);
    assert_eq!(*group.udp_sock(), "udp");
    assert_eq!(group.get_all_sockets(), vec![10]);
}

#[test]
fn later_streams_share_the_udp_socket_and_the_number_of_the_first() {
    let mut table: GroupTable<u32, &str> = GroupTable::new();
    assert!(!table.join(&info(7, 0, 2), 10, Some("first")));
    assert!(table.join(&info(7, 1, 9), 11, Some("second")));
    let group = table.get(&StreamId { value: 7 }).unwrap();
    assert_eq!(*group.udp_sock(), "first");
    assert_eq!(group.total_streams(), 2);
    assert_eq!(sorted(group.get_all_sockets()), vec![10, 11]);
}

#[test]
fn groups_do_not_disturb_each_other() {
    let mut table: GroupTable<u32, u8> = GroupTable::new();
    assert!(!table.join(&info(1, 0, 2), 10, Some(1)));
    assert!(!table.join(&info(2, 0, 3), 20, Some(2)));
    assert!(table.join(&info(1, 1, 2), 11, None));
    assert!(!table.join(&info(2, 1, 3), 21, None));
    assert!(table.join(&info(2, 2, 3), 22, None));
    assert_eq!(sorted(table.get(&StreamId { value: 1 }).unwrap().get_all_sockets()), vec![10, 11]);
    assert_eq!(
        sorted(table.get(&StreamId { value: 2 }).unwrap().get_all_sockets()),
        vec![20, 21, 22]
    );
    table.remove(&StreamId { value: 1 });
    assert!(!table.contains(&StreamId { value: 1 }));
    assert!(table.contains(&StreamId { value: 2 }));
    table.remove(&StreamId { value: 3 });
    assert!(table.contains(&StreamId { value: 2 }));
}

#[test]
fn removed_group_starts_anew() {
    let mut table: GroupTable<u32, u8> = GroupTable::new();
    assert!(table.join(&info(1, 0, 1), 10, Some(1)));
    table.remove(&StreamId { value: 1 });
    assert!(!table.join(&info(1, 0, 2), 11, Some(2)));
    assert_eq!(table.get(&StreamId { value: 1 }).unwrap().get_all_sockets(), vec![11]);
}

#[test]
fn announced_streams_find_together() {
    for count in [1usize, 2, 3, 255, 256] {
        let id = StreamId { value: 0xfeed };
        let mut table: GroupTable<u32, ()> = GroupTable::new();
        for place in 0..count {
            let stream = count - 1 - place;
            let packet = handshake_to_send(&Some(id), stream, count, Some(&b"user"[..]));
            let info = parse_multistream_handshake(&packet).unwrap();
            let fresh = if table.contains(&info.stream_id) { None } else { Some(()) };
            let complete = table.join(&info, stream as u32, fresh);
            assert_eq!(complete, place + 1 == count);
        }
        let expected: Vec<u32> = (0..count as u32).collect();
        assert_eq!(sorted(table.get(&id).unwrap().get_all_sockets()), expected);
    }
}
