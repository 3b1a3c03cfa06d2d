//! How the two ends of a connection fit together.

use crate::stream_id::StreamId;
use vstd::prelude::*;

verus! {

/// The streams of one connection as they reach the server: stream `order[i]` of
/// `num_streams` comes as number `i`, with the index that its first packet
/// announces and the handle `sockets[i]`.
pub open spec fn announced_joins<S>(
    stream_id: StreamId,
    num_streams: nat,
    user_handshake: Option<Seq<u8>>,
    order: Seq<nat>,
    sockets: Seq<S>,
) -> Seq<(u8, S)> {
    Seq::new(
        order.len(),
        |i: int|
            (
                crate::protocol::handshake_of(
                    crate::dial::first_bytes(
                        Some(stream_id),
                        order[i],
                        num_streams,
                        user_handshake,
                    ),
                )->Some_0.stream_index,
                sockets[i],
            ),
    )
}

/// The streams of a connection find together at the server: whatever order they
/// come in, the last of them makes their group complete.
///
/// One byte must be able to tell the streams apart.
pub proof fn announced_streams_complete_their_group<S, U>(
    stream_id: StreamId,
    num_streams: nat,
    user_handshake: Option<Seq<u8>>,
    order: Seq<nat>,
    sockets: Seq<S>,
    udp_sock: U,
)
    requires
        0 < num_streams <= 256,
        order.len() == num_streams,
        sockets.len() == num_streams,
        order.no_duplicates(),
        forall|i: int| 0 <= i < order.len() ==> #[trigger] order[i] < num_streams,
    ensures
        ({
            let joins = announced_joins(stream_id, num_streams, user_handshake, order, sockets);
            crate::stream_group::after_joins(
                crate::stream_group::GroupView::<S, U>::empty(
                    stream_id,
                    (num_streams % 256) as u8,
                    udp_sock,
                ),
                joins.drop_last(),
            ).completed_by(joins.last().0)
        }),
{
    let joins = announced_joins(stream_id, num_streams, user_handshake, order, sockets);
    assert forall|i: int| 0 <= i < joins.len() implies #[trigger] joins[i].0 == order[i] as u8 by {
        crate::dial::stream_announces_itself(stream_id, order[i], num_streams, user_handshake);
    }
    assert forall|i: int, j: int|
        0 <= i < joins.len() && 0 <= j < joins.len() && i != j implies joins[i].0
        != joins[j].0 by {
        assert(order[i] != order[j]);
    }
    crate::stream_group::distinct_streams_complete_group(
        stream_id,
        (num_streams % 256) as u8,
        udp_sock,
        joins,
    );
}

/// The server takes the first packet of each stream of a multi-stream connection
/// for the announcement that it is, and never for a packet to forward.
pub proof fn announced_stream_is_not_legacy(
    stream_id: StreamId,
    index: nat,
    num_streams: nat,
    user_handshake: Option<Seq<u8>>,
    response: Option<Seq<u8>>,
)
    ensures
        ({
            let packet = crate::dial::first_bytes(
                Some(stream_id),
                index,
                num_streams,
                user_handshake,
            );
            let info = crate::protocol::handshake_of(packet)->Some_0;
            &&& info.stream_id == stream_id@
            &&& info.stream_index == index % 256
            &&& info.total_streams == num_streams % 256
            &&& crate::admission::admission(Some(packet), response) == match response {
                Some(r) => crate::admission::AdmissionView::Respond(r, info),
                None => crate::admission::AdmissionView::Join(info),
            }
        }),
{
    crate::dial::stream_announces_itself(stream_id, index, num_streams, user_handshake);
}

/// A packet that does not start with the announcement's header is never taken for
/// one: the server serves its connection as one of a single stream, after its own
/// handshake packet, if it has one, and forwards the packet as it stands.
pub proof fn other_first_packet_is_legacy(packet: Seq<u8>, response: Option<Seq<u8>>)
    requires
        packet.len() > 0,
        !crate::protocol::is_multistream(packet),
    ensures
        crate::admission::admission(Some(packet), response) == match response {
            Some(r) => crate::admission::AdmissionView::RespondLegacy(r, packet),
            None => crate::admission::AdmissionView::Legacy(packet),
        },
{
}

/// The server's handshake packet goes to every client that it serves: with one
/// configured, no connection joins a group or is served alone without it.
pub proof fn handshake_goes_to_every_client(first_packet: Option<Seq<u8>>, response: Seq<u8>)
    ensures
        match crate::admission::admission(first_packet, Some(response)) {
            crate::admission::AdmissionView::Close => crate::protocol::or_empty(
                first_packet,
            ).len() == 0,
            crate::admission::AdmissionView::Respond(sent, _) => sent == response,
            crate::admission::AdmissionView::RespondLegacy(sent, _) => sent == response,
            crate::admission::AdmissionView::Legacy(_) => false,
            crate::admission::AdmissionView::Join(_) => false,
        },
{
}

} // verus!
