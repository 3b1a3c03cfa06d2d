//! What the server does with a TCP connection that it has accepted.

use crate::protocol::{parse_multistream_handshake, MultiStreamInfo};
use vstd::prelude::*;

verus! {

/// How long the server waits for the first packet of a connection.
pub const FIRST_PACKET_TIMEOUT_SECS: u64 = 5;

/// What to do next with a connection.
#[derive(Debug)]
pub enum Admission {
    /// Close it.
    Close,
    /// Serve it as a connection of one stream, whose first packet is to be
    /// forwarded like any other.
    Legacy { first_packet: Vec<u8> },
    /// Send `packet` on it, then see [`after_legacy_response`].
    RespondLegacy { packet: Vec<u8>, first_packet: Vec<u8> },
    /// Send `packet` on it, then see [`after_response`].
    Respond { packet: Vec<u8>, info: MultiStreamInfo },
    /// Let it join its stream group.
    Join { info: MultiStreamInfo },
}

/// The mathematical content of an [`Admission`].
pub enum AdmissionView {
    Close,
    Legacy(Seq<u8>),
    RespondLegacy(Seq<u8>, Seq<u8>),
    Respond(Seq<u8>, crate::protocol::Handshake),
    Join(crate::protocol::Handshake),
}

impl View for Admission {
    type V = AdmissionView;

    open spec fn view(&self) -> AdmissionView {
        match *self {
            Admission::Close => AdmissionView::Close,
            Admission::Legacy { first_packet } => AdmissionView::Legacy(first_packet@),
            Admission::RespondLegacy { packet, first_packet } => AdmissionView::RespondLegacy(
                packet@,
                first_packet@,
            ),
            Admission::Respond { packet, info } => AdmissionView::Respond(packet@, info@),
            Admission::Join { info } => AdmissionView::Join(info@),
        }
    }
}

/// What a connection with this first packet is to the server, whose own handshake
/// packet, if it has one, is the first data packet that it sends to any client.
/// Without a first packet, or with one that has no bytes, the connection is
/// closed.
pub open spec fn admission(
    first_packet: Option<Seq<u8>>,
    handshake: Option<Seq<u8>>,
) -> AdmissionView {
    match first_packet {
        None => AdmissionView::Close,
        Some(packet) => if packet.len() == 0 {
            AdmissionView::Close
        } else {
            match (crate::protocol::handshake_of(packet), handshake) {
                (None, Some(response)) => AdmissionView::RespondLegacy(response, packet),
                (None, None) => AdmissionView::Legacy(packet),
                (Some(info), Some(response)) => AdmissionView::Respond(response, info),
                (Some(info), None) => AdmissionView::Join(info),
            }
        },
    }
}

/// Decides on a connection by its first packet. `first_packet` is `None` if none
/// came in time or the connection broke.
pub fn decide_admission(first_packet: Option<Vec<u8>>, handshake: Option<&[u8]>) -> (decision: Admission)
    ensures
        decision@ == admission(
            crate::protocol::opt_bytes(first_packet),
            crate::protocol::opt_slice(handshake),
        ),
        first_packet is None ==> decision is Close,
        first_packet matches Some(first) ==> match decision {
            Admission::Close => first@.len() == 0,
            Admission::Legacy { first_packet: kept } => first@.len() > 0
                && !crate::protocol::is_multistream(first@) && handshake is None && kept@ == first@,
            Admission::RespondLegacy { packet, first_packet: kept } => first@.len() > 0
                && !crate::protocol::is_multistream(first@) && kept@ == first@ && (
            handshake matches Some(response) && packet@ == response@),
            Admission::Respond { packet, info } => crate::protocol::is_multistream(first@) && Some(
                info@,
            ) == crate::protocol::handshake_of(first@) && (handshake matches Some(response)
                && packet@ == response@),
            Admission::Join { info } => crate::protocol::is_multistream(first@) && Some(info@)
                == crate::protocol::handshake_of(first@) && handshake is None,
        },
{
    match first_packet {
        None => Admission::Close,
        Some(packet) => if packet.len() == 0 {
            Admission::Close
        } else {
            match parse_multistream_handshake(packet.as_slice()) {
                None => match handshake {
                    Some(response) => Admission::RespondLegacy {
                        packet: vstd::slice::slice_to_vec(response),
                        first_packet: packet,
                    },
                    None => Admission::Legacy { first_packet: packet },
                },
                Some(info) => match handshake {
                    Some(response) => Admission::Respond {
                        packet: vstd::slice::slice_to_vec(response),
                        info,
                    },
                    None => Admission::Join { info },
                },
            }
        },
    }
}

/// Decides on a connection of one stream after the response to it: it is served if
/// the response was sent, and closed otherwise.
pub fn after_legacy_response(first_packet: Vec<u8>, sent: bool) -> (decision: Admission)
    ensures
        decision@ == if sent {
            AdmissionView::Legacy(first_packet@)
        } else {
            AdmissionView::Close
        },
        sent ==> (decision matches Admission::Legacy { first_packet: kept } && kept@
            == first_packet@),
        !sent ==> decision is Close,
{
    if sent {
        Admission::Legacy { first_packet }
    } else {
        Admission::Close
    }
}

/// Decides on an announced stream after the response to it: it joins its group if
/// the response was sent, and is closed otherwise.
pub fn after_response(info: MultiStreamInfo, sent: bool) -> (decision: Admission)
    ensures
        decision@ == if sent {
            AdmissionView::Join(info@)
        } else {
            AdmissionView::Close
        },
        sent ==> decision == (Admission::Join { info }),
        !sent ==> decision is Close,
{
    if sent {
        Admission::Join { info }
    } else {
        Admission::Close
    }
}

/// A connection is closed at once exactly if no packet came on it, or one without
/// bytes.
pub proof fn only_silent_connections_are_closed(
    first_packet: Option<Seq<u8>>,
    handshake: Option<Seq<u8>>,
)
    ensures
        admission(first_packet, handshake) is Close <==> match first_packet {
            Some(packet) => packet.len() == 0,
            None => true,
        },
{
}

/// A connection joins a group, at once or after the response, exactly if its first
/// packet is an announcement, of whatever stream and with whatever behind it; and
/// then it joins as what the packet says. Any other packet is forwarded as it came.
pub proof fn announcements_join_and_others_are_forwarded(
    packet: Seq<u8>,
    handshake: Option<Seq<u8>>,
)
    requires
        packet.len() > 0,
    ensures
        match admission(Some(packet), handshake) {
            AdmissionView::Close => false,
            AdmissionView::Join(info) => handshake is None && Some(info)
                == crate::protocol::handshake_of(packet),
            AdmissionView::Respond(response, info) => handshake == Some(response) && Some(info)
                == crate::protocol::handshake_of(packet),
            AdmissionView::Legacy(kept) => handshake is None && kept == packet
                && !crate::protocol::is_multistream(packet),
            AdmissionView::RespondLegacy(response, kept) => handshake == Some(response) && kept
                == packet && !crate::protocol::is_multistream(packet),
        },
{
}

} // verus!
