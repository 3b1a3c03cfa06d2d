//! The packet that opens each TCP stream of a multi-stream connection.
//!
//! ```text
//! [MAGIC(4)][VERSION(1)][STREAM_ID(16)][STREAM_INDEX(1)][TOTAL_STREAMS(1)][USER_PACKET...]
//! ```
//!
//! - `MAGIC`: `PMTS`, for Phantun Multi-Stream
//! - `VERSION`: the protocol version
//! - `STREAM_ID`: UUID of the stream group
//! - `STREAM_INDEX`: index of this stream, counted from 0
//! - `TOTAL_STREAMS`: number of streams in the group
//! - `USER_PACKET`: what the user wants sent first, if anything

use crate::stream_id::StreamId;
use vstd::prelude::*;
use vstd::slice::{slice_subrange, slice_to_vec};

verus! {

/// `PMTS`.
pub const MULTISTREAM_MAGIC: [u8; 4] = [0x50, 0x4d, 0x54, 0x53];

pub const MULTISTREAM_VERSION: u8 = 1;

/// Magic, version, stream identifier, stream index and number of streams.
pub const MULTISTREAM_HEADER_LEN: usize = 4 + 1 + 16 + 1 + 1;

/// What a multi-stream handshake packet says.
#[derive(Debug, Clone)]
pub struct MultiStreamInfo {
    pub stream_id: StreamId,
    pub stream_index: u8,
    pub total_streams: u8,
    pub user_payload: Option<Vec<u8>>,
}

/// The mathematical content of a [`MultiStreamInfo`].
pub struct Handshake {
    pub stream_id: Seq<u8>,
    pub stream_index: u8,
    pub total_streams: u8,
    pub user_payload: Option<Seq<u8>>,
}

/// The bytes of an optional vector.
pub open spec fn opt_bytes(bytes: Option<Vec<u8>>) -> Option<Seq<u8>> {
    match bytes {
        Some(b) => Some(b@),
        None => None,
    }
}

/// The bytes of an optional slice.
pub open spec fn opt_slice(bytes: Option<&[u8]>) -> Option<Seq<u8>> {
    match bytes {
        Some(b) => Some(b@),
        None => None,
    }
}

/// The bytes that are there, or none.
pub open spec fn or_empty(bytes: Option<Seq<u8>>) -> Seq<u8> {
    match bytes {
        Some(b) => b,
        None => seq![],
    }
}

impl View for MultiStreamInfo {
    type V = Handshake;

    open spec fn view(&self) -> Handshake {
        Handshake {
            stream_id: self.stream_id@,
            stream_index: self.stream_index,
            total_streams: self.total_streams,
            user_payload: opt_bytes(self.user_payload),
        }
    }
}

/// The packet that announces a stream.
pub open spec fn handshake_packet(
    stream_id: Seq<u8>,
    stream_index: u8,
    total_streams: u8,
    user_packet: Seq<u8>,
) -> Seq<u8> {
    MULTISTREAM_MAGIC@ + seq![MULTISTREAM_VERSION] + stream_id + seq![stream_index, total_streams]
        + user_packet
}

/// Whether `data` starts with the header of a multi-stream handshake of the
/// version that is spoken here.
pub open spec fn is_multistream(data: Seq<u8>) -> bool {
    &&& data.len() >= MULTISTREAM_HEADER_LEN
    &&& data.subrange(0, 4) == MULTISTREAM_MAGIC@
    &&& data[4] == MULTISTREAM_VERSION
}

/// What `data` says as a multi-stream handshake.
pub open spec fn handshake_of(data: Seq<u8>) -> Option<Handshake> {
    if is_multistream(data) {
        Some(
            Handshake {
                stream_id: data.subrange(5, 21),
                stream_index: data[21],
                total_streams: data[22],
                user_payload: if data.len() > MULTISTREAM_HEADER_LEN {
                    Some(data.subrange(MULTISTREAM_HEADER_LEN as int, data.len() as int))
                } else {
                    None
                },
            },
        )
    } else {
        None
    }
}

/// What a received packet says, if it is a handshake.
pub open spec fn opt_info(info: Option<MultiStreamInfo>) -> Option<Handshake> {
    match info {
        Some(i) => Some(i@),
        None => None,
    }
}

/// Builds the handshake packet of a stream, with the user's own packet, if there
/// is one, behind the header.
pub fn build_multistream_handshake(
    stream_id: &StreamId,
    stream_index: u8,
    total_streams: u8,
    user_handshake: Option<&[u8]>,
) -> (packet: Vec<u8>)
    requires
        MULTISTREAM_HEADER_LEN + or_empty(opt_slice(user_handshake)).len() <= isize::MAX,
    ensures
        packet@ == handshake_packet(
            stream_id@,
            stream_index,
            total_streams,
            or_empty(opt_slice(user_handshake)),
        ),
        user_handshake is None ==> packet@.len() == 23,
        user_handshake matches Some(user) ==> packet@.len() == 23 + user@.len() && forall|i: int|
            0 <= i < user@.len() ==> packet@[23 + i] == #[trigger] user@[i],
        packet@[21] == stream_index,
        packet@[22] == total_streams,
{
    let user_len: usize = match user_handshake {
        Some(user_packet) => user_packet.len(),
        None => 0,
    };
    let mut packet: Vec<u8> = Vec::with_capacity(MULTISTREAM_HEADER_LEN + user_len);
    packet.extend_from_slice(&MULTISTREAM_MAGIC);
    assert(packet@ =~= MULTISTREAM_MAGIC@);
    packet.push(MULTISTREAM_VERSION);
    let id_bytes = stream_id.as_bytes();
    packet.extend_from_slice(&id_bytes);
    assert(packet@ =~= MULTISTREAM_MAGIC@ + seq![MULTISTREAM_VERSION] + stream_id@);
    packet.push(stream_index);
    packet.push(total_streams);
    let ghost header = packet@;
    assert(header =~= MULTISTREAM_MAGIC@ + seq![MULTISTREAM_VERSION] + stream_id@ + seq![
        stream_index,
        total_streams,
    ]);
    if let Some(user_packet) = user_handshake {
        packet.extend_from_slice(user_packet);
        assert(packet@ =~= header + user_packet@);
    }
    packet
}

/// The version of a packet that starts like a multi-stream handshake but is of a
/// version that is not spoken here.
pub open spec fn foreign_version(data: Seq<u8>) -> Option<u8> {
    if data.len() >= MULTISTREAM_HEADER_LEN && data.subrange(0, 4) == MULTISTREAM_MAGIC@ && data[4]
        != MULTISTREAM_VERSION {
        Some(data[4])
    } else {
        None
    }
}

/// Whether the first bytes are the magic number.
fn has_magic(data: &[u8]) -> (found: bool)
    requires
        data@.len() >= 4,
    ensures
        found == (data@.subrange(0, 4) == MULTISTREAM_MAGIC@),
{
    let mut i: usize = 0;
    while i < 4
        invariant
            i <= 4,
            data@.len() >= 4,
            forall|j: int| 0 <= j < i ==> data@[j] == MULTISTREAM_MAGIC@[j],
        decreases 4 - i,
    {
        if data[i] != MULTISTREAM_MAGIC[i] {
            assert(data@.subrange(0, 4)[i as int] != MULTISTREAM_MAGIC@[i as int]);
            return false;
        }
        i = i + 1;
    }
    assert(data@.subrange(0, 4) =~= MULTISTREAM_MAGIC@);
    true
}

/// The version of a packet that is refused as a handshake for its version alone.
pub fn unknown_version(data: &[u8]) -> (version: Option<u8>)
    ensures
        version == foreign_version(data@),
        version matches Some(v) ==> data@.len() >= 23 && v == data@[4] && v != 1,
{
    if data.len() < MULTISTREAM_HEADER_LEN || !has_magic(data) || data[4] == MULTISTREAM_VERSION {
        None
    } else {
        Some(data[4])
    }
}

/// Reads a packet as a multi-stream handshake. `None` if it is not one.
pub fn parse_multistream_handshake(data: &[u8]) -> (info: Option<MultiStreamInfo>)
    ensures
        opt_info(info) == handshake_of(data@),
        info is Some <==> is_multistream(data@),
        info matches Some(i) ==> {
            &&& i.stream_id@ == data@.subrange(5, 21)
            &&& i.stream_index == data@[21]
            &&& i.total_streams == data@[22]
            &&& i.user_payload is Some <==> data@.len() > 23
            &&& i.user_payload matches Some(payload) ==> payload@.len() == data@.len() - 23
                && forall|k: int|
                0 <= k < payload@.len() ==> #[trigger] payload@[k] == data@[23 + k]
        },
{
    if data.len() < MULTISTREAM_HEADER_LEN {
        return None;
    }
    if !has_magic(data) {
        return None;
    }
    if data[4] != MULTISTREAM_VERSION {
        return None;
    }
    let id_bytes: [u8; 16] = [
        data[5],
        data[6],
        data[7],
        data[8],
        data[9],
        data[10],
        data[11],
        data[12],
        data[13],
        data[14],
        data[15],
        data[16],
        data[17],
        data[18],
        data[19],
        data[20],
    ];
    assert(id_bytes@ =~= data@.subrange(5, 21));
    let stream_id = StreamId::from_bytes(id_bytes);
    let user_payload = if data.len() > MULTISTREAM_HEADER_LEN {
        Some(slice_to_vec(slice_subrange(data, MULTISTREAM_HEADER_LEN, data.len())))
    } else {
        None
    };
    Some(
        MultiStreamInfo {
            stream_id,
            stream_index: data[21],
            total_streams: data[22],
            user_payload,
        },
    )
}

/// Reading gives back what was written. A user packet without bytes leaves no
/// trace in the packet and reads as none.
pub proof fn parse_gives_back_build(
    stream_id: StreamId,
    stream_index: u8,
    total_streams: u8,
    user_packet: Seq<u8>,
)
    ensures
        handshake_of(handshake_packet(stream_id@, stream_index, total_streams, user_packet)) == Some(
            Handshake {
                stream_id: stream_id@,
                stream_index,
                total_streams,
                user_payload: if user_packet.len() > 0 {
                    Some(user_packet)
                } else {
                    None
                },
            },
        ),
{
    let data = handshake_packet(stream_id@, stream_index, total_streams, user_packet);
    assert(data.subrange(0, 4) =~= MULTISTREAM_MAGIC@);
    assert(data.subrange(5, 21) =~= stream_id@);
    assert(data.subrange(23, data.len() as int) =~= user_packet);
}

/// Writing gives back what was read: a packet that reads as a handshake is the
/// very packet that is built from what it says.
pub proof fn build_gives_back_parse(data: Seq<u8>)
    requires
        is_multistream(data),
    ensures
        handshake_of(data) matches Some(h) && handshake_packet(
            h.stream_id,
            h.stream_index,
            h.total_streams,
            or_empty(h.user_payload),
        ) == data,
{
    let h = handshake_of(data)->Some_0;
    let packet = handshake_packet(
        h.stream_id,
        h.stream_index,
        h.total_streams,
        or_empty(h.user_payload),
    );
    assert forall|i: int| 0 <= i < 4 implies data[i] == MULTISTREAM_MAGIC@[i] by {
        assert(data.subrange(0, 4)[i] == data[i]);
    }
    assert(packet =~= data);
}

/// The layout of a packet, byte by byte: magic, version, identifier, index, number
/// of streams, and the user's packet as the user gave it, of whatever length.
pub proof fn packet_layout(
    stream_id: Seq<u8>,
    stream_index: u8,
    total_streams: u8,
    user_packet: Seq<u8>,
)
    requires
        stream_id.len() == 16,
    ensures
        ({
            let packet = handshake_packet(stream_id, stream_index, total_streams, user_packet);
            &&& packet.len() == 23 + user_packet.len()
            &&& packet[0] == 0x50
            &&& packet[1] == 0x4d
            &&& packet[2] == 0x54
            &&& packet[3] == 0x53
            &&& packet[4] == 1
            &&& forall|i: int| 0 <= i < 16 ==> packet[5 + i] == #[trigger] stream_id[i]
            &&& packet[21] == stream_index
            &&& packet[22] == total_streams
            &&& forall|i: int|
                0 <= i < user_packet.len() ==> packet[23 + i] == #[trigger] user_packet[i]
        }),
{
}

/// What a packet is told by: at least the 23 bytes of a header, of which the first
/// four are the magic number and the fifth is the version.
pub proof fn header_is_told_by_magic_and_version(data: Seq<u8>)
    ensures
        is_multistream(data) <==> data.len() >= 23 && data[0] == 0x50 && data[1] == 0x4d && data[2]
            == 0x54 && data[3] == 0x53 && data[4] == 1,
        handshake_of(data) is Some <==> is_multistream(data),
{
    if data.len() >= 23 {
        let first = data.subrange(0, 4);
        assert(first[0] == data[0] && first[1] == data[1] && first[2] == data[2] && first[3]
            == data[3]);
        assert(MULTISTREAM_MAGIC@.len() == 4);
        if data[0] == 0x50 && data[1] == 0x4d && data[2] == 0x54 && data[3] == 0x53 {
            assert(first =~= MULTISTREAM_MAGIC@);
        }
    }
}

/// What a packet says stands in it at fixed places, in the order in which it is
/// read; all that follows the header, and nothing else, is the user's.
pub proof fn handshake_is_read_in_place(data: Seq<u8>)
    requires
        is_multistream(data),
    ensures
        handshake_of(data) matches Some(h) && {
            &&& h.stream_id.len() == 16
            &&& forall|i: int| 0 <= i < 16 ==> #[trigger] h.stream_id[i] == data[5 + i]
            &&& h.stream_index == data[21]
            &&& h.total_streams == data[22]
            &&& h.user_payload is Some <==> data.len() > 23
            &&& h.user_payload matches Some(payload) ==> payload.len() == data.len() - 23
                && forall|i: int|
                0 <= i < payload.len() ==> #[trigger] payload[i] == data[23 + i]
        },
{
}

/// A packet of another version is one that would be read if its fifth byte were
/// the version that is spoken here.
pub proof fn other_version_differs_in_one_byte(data: Seq<u8>)
    ensures
        foreign_version(data) is Some <==> data.len() >= 23 && !is_multistream(data)
            && is_multistream(data.update(4, 1)),
        foreign_version(data) matches Some(v) ==> v == data[4],
{
    header_is_told_by_magic_and_version(data);
    header_is_told_by_magic_and_version(data.update(4, 1));
    if data.len() >= 23 {
        let first = data.subrange(0, 4);
        assert(data.update(4, 1).subrange(0, 4) =~= first);
    }
}

/// Optional bytes are taken as they stand, and missing ones are none.
pub proof fn optional_bytes_are_kept(bytes: Vec<u8>, slice: &[u8], seq: Seq<u8>)
    ensures
        opt_bytes(Some(bytes)) == Some(bytes@),
        opt_bytes(None) is None,
        opt_slice(Some(slice)) == Some(slice@),
        opt_slice(None) is None,
        or_empty(Some(seq)) == seq,
        or_empty(None).len() == 0,
{
}

/// What a handshake says is what its fields hold.
pub proof fn info_says_what_it_holds(info: MultiStreamInfo)
    ensures
        info@.stream_id == info.stream_id@,
        info@.stream_index == info.stream_index,
        info@.total_streams == info.total_streams,
        info@.user_payload is Some <==> info.user_payload is Some,
        info.user_payload matches Some(payload) ==> info@.user_payload == Some(payload@),
        opt_info(Some(info)) == Some(info@),
        opt_info(None) is None,
{
}

} // verus!
