//! How the client opens the TCP streams of a new UDP connection.

use crate::multi_stream::MultiStream;
use crate::protocol::{build_multistream_handshake, MULTISTREAM_HEADER_LEN};
use crate::stream_id::StreamId;
use vstd::prelude::*;

verus! {

/// A fresh identifier for a connection of more than one stream. A single stream
/// needs none.
pub fn new_stream_id(num_streams: usize) -> (stream_id: Option<StreamId>)
    ensures
        stream_id is Some <==> num_streams > 1,
        stream_id matches Some(id) ==> crate::stream_id::is_random_uuid(id@),
        stream_id matches Some(id) ==> call_ensures(StreamId::new_v4, (), id),
        stream_id matches Some(id) ==> id.is_drawn(),
{
    if num_streams > 1 {
        Some(StreamId::new_v4())
    } else {
        None
    }
}

/// What is sent first on stream `index` of `num_streams`. With an identifier it
/// is the stream's announcement and the user's packet behind it; the announcement
/// has one byte for the index and one for the number, which keep the low eight
/// bits. Without an identifier it is the user's packet alone.
pub open spec fn first_bytes(
    stream_id: Option<StreamId>,
    index: nat,
    num_streams: nat,
    user_handshake: Option<Seq<u8>>,
) -> Seq<u8> {
    let user_packet = crate::protocol::or_empty(user_handshake);
    match stream_id {
        Some(id) => crate::protocol::handshake_packet(
            id@,
            (index % 256) as u8,
            (num_streams % 256) as u8,
            user_packet,
        ),
        None => user_packet,
    }
}

/// Builds [`first_bytes`]. If they are none, nothing is sent.
pub fn handshake_to_send(
    stream_id: &Option<StreamId>,
    index: usize,
    num_streams: usize,
    user_handshake: Option<&[u8]>,
) -> (packet: Vec<u8>)
    requires
        MULTISTREAM_HEADER_LEN + crate::protocol::or_empty(
            crate::protocol::opt_slice(user_handshake),
        ).len() <= isize::MAX,
    ensures
        packet@ == first_bytes(
            *stream_id,
            index as nat,
            num_streams as nat,
            crate::protocol::opt_slice(user_handshake),
        ),
        stream_id is None ==> match user_handshake {
            Some(user) => packet@ == user@,
            None => packet@.len() == 0,
        },
        stream_id is Some ==> match user_handshake {
            Some(user) => packet@.len() == 23 + user@.len() && forall|i: int|
                0 <= i < user@.len() ==> packet@[23 + i] == #[trigger] user@[i],
            None => packet@.len() == 23,
        },
{
    match stream_id {
        Some(id) => build_multistream_handshake(
            id,
            (index % 256) as u8,
            (num_streams % 256) as u8,
            user_handshake,
        ),
        None => match user_handshake {
            Some(user_packet) => vstd::slice::slice_to_vec(user_packet),
            None => Vec::new(),
        },
    }
}

/// The mathematical content of a [`Dial`].
#[verifier::ext_equal]
pub struct DialView<S> {
    pub num_streams: nat,
    pub stream_id: Option<StreamId>,
    pub user_handshake: Option<Seq<u8>>,
    /// The streams that are up, in the order of their indices.
    pub sockets: Seq<S>,
    /// The stream that is connected but not announced yet.
    pub pending: Option<S>,
}

impl<S> DialView<S> {
    /// A dial before its first stream.
    pub open spec fn start(
        num_streams: nat,
        stream_id: Option<StreamId>,
        user_handshake: Option<Seq<u8>>,
    ) -> Self {
        DialView { num_streams, stream_id, user_handshake, sockets: seq![], pending: None }
    }

    /// There is a stream to open, no more are up than asked for, and none is
    /// announced after the last.
    pub open spec fn valid(self) -> bool {
        &&& self.num_streams > 0
        &&& self.sockets.len() <= self.num_streams
        &&& self.pending is Some ==> self.sockets.len() < self.num_streams
    }

    /// Whether the dial waits for a stream to connect.
    pub open spec fn connecting(self) -> bool {
        self.pending is None && self.sockets.len() < self.num_streams
    }

    /// Whether the outcome `event` is one that the dial waits for.
    pub open spec fn expects(self, event: DialEvent<S>) -> bool {
        match event {
            DialEvent::Connected(_) => self.connecting(),
            DialEvent::ConnectFailed => self.connecting(),
            DialEvent::Sent => !self.connecting(),
            DialEvent::SendFailed => !self.connecting(),
        }
    }

    /// The dial with one more stream up.
    pub open spec fn with_stream(self, socket: S) -> Self {
        DialView { sockets: self.sockets.push(socket), pending: None, ..self }
    }

    /// What the stream that is next to come up sends first.
    pub open spec fn next_handshake(self) -> Seq<u8> {
        first_bytes(self.stream_id, self.sockets.len(), self.num_streams, self.user_handshake)
    }

    /// What to do once a stream is up.
    pub open spec fn proceed(self) -> DialStepView<S> {
        if self.sockets.len() < self.num_streams {
            DialStepView::Connect(self)
        } else {
            DialStepView::Forward(self)
        }
    }

    /// What to do about `event`.
    pub open spec fn step(self, event: DialEvent<S>) -> DialStepView<S> {
        match event {
            DialEvent::Connected(socket) => if self.next_handshake().len() == 0 {
                self.with_stream(socket).proceed()
            } else {
                DialStepView::Announce(
                    DialView { pending: Some(socket), ..self },
                    self.next_handshake(),
                )
            },
            DialEvent::Sent => match self.pending {
                Some(socket) => self.with_stream(socket).proceed(),
                None => DialStepView::Open(self.sockets),
            },
            DialEvent::ConnectFailed => DialStepView::GiveUp,
            DialEvent::SendFailed => DialStepView::GiveUp,
        }
    }
}

/// The outcome of what a [`DialStep`] asked for.
#[derive(Debug)]
pub enum DialEvent<S> {
    /// The stream is connected.
    Connected(S),
    /// The stream could not be connected.
    ConnectFailed,
    /// The packet was sent.
    Sent,
    /// The packet could not be sent.
    SendFailed,
}

/// What to do next to open a connection.
#[derive(Debug)]
pub enum DialStep<S> {
    /// Connect another stream.
    Connect(Dial<S>),
    /// Send `packet` on [`Dial::socket`].
    Announce { dial: Dial<S>, packet: Vec<u8> },
    /// All streams are up: send the UDP packet that started the connection on
    /// [`Dial::socket`].
    Forward(Dial<S>),
    /// The connection is open.
    Open(MultiStream<S>),
    /// Close whatever was opened.
    GiveUp,
}

/// The mathematical content of a [`DialStep`].
pub enum DialStepView<S> {
    Connect(DialView<S>),
    Announce(DialView<S>, Seq<u8>),
    Forward(DialView<S>),
    /// The streams; packets are dealt out from the first one on.
    Open(Seq<S>),
    GiveUp,
}

impl<S> DialStep<S> {
    pub open spec fn wf(&self) -> bool {
        match *self {
            DialStep::Connect(dial) => dial.wf(),
            DialStep::Announce { dial, packet } => dial.wf(),
            DialStep::Forward(dial) => dial.wf(),
            DialStep::Open(multi_stream) => multi_stream.ticket() == 0,
            DialStep::GiveUp => true,
        }
    }
}

impl<S> View for DialStep<S> {
    type V = DialStepView<S>;

    open spec fn view(&self) -> DialStepView<S> {
        match *self {
            DialStep::Connect(dial) => DialStepView::Connect(dial@),
            DialStep::Announce { dial, packet } => DialStepView::Announce(dial@, packet@),
            DialStep::Forward(dial) => DialStepView::Forward(dial@),
            DialStep::Open(multi_stream) => DialStepView::Open(multi_stream.streams()),
            DialStep::GiveUp => DialStepView::GiveUp,
        }
    }
}

/// A connection that is being opened: its streams are connected and announced one
/// after the other, and the first failure ends the attempt.
#[derive(Debug)]
pub struct Dial<S> {
    num_streams: usize,
    stream_id: Option<StreamId>,
    user_handshake: Option<Vec<u8>>,
    sockets: Vec<S>,
    pending: Option<S>,
}

impl<S> View for Dial<S> {
    type V = DialView<S>;

    closed spec fn view(&self) -> DialView<S> {
        DialView {
            num_streams: self.num_streams as nat,
            stream_id: self.stream_id,
            user_handshake: crate::protocol::opt_bytes(self.user_handshake),
            sockets: self.sockets@,
            pending: self.pending,
        }
    }
}

impl<S> Dial<S> {
    pub open spec fn wf(&self) -> bool {
        &&& self@.valid()
        &&& self@.num_streams <= usize::MAX
        &&& MULTISTREAM_HEADER_LEN + crate::protocol::or_empty(self@.user_handshake).len()
            <= isize::MAX
    }

    /// Starts to open a connection of `num_streams` streams, each of which sends
    /// the user's packet first, if there is one.
    pub fn start(
        num_streams: usize,
        stream_id: Option<StreamId>,
        user_handshake: Option<Vec<u8>>,
    ) -> (step: DialStep<S>)
        requires
            num_streams > 0,
            MULTISTREAM_HEADER_LEN + crate::protocol::or_empty(
                crate::protocol::opt_bytes(user_handshake),
            ).len() <= isize::MAX,
        ensures
            step.wf(),
            step@ == DialStepView::Connect(
                DialView::<S>::start(
                    num_streams as nat,
                    stream_id,
                    crate::protocol::opt_bytes(user_handshake),
                ),
            ),
    {
        let dial = Dial {
            num_streams,
            stream_id,
            user_handshake,
            sockets: Vec::new(),
            pending: None,
        };
        DialStep::Connect(dial)
    }

    /// Starts to open a connection, with a fresh identifier if it has more than one
    /// stream.
    pub fn begin(num_streams: usize, user_handshake: Option<Vec<u8>>) -> (step: DialStep<S>)
        requires
            num_streams > 0,
            MULTISTREAM_HEADER_LEN + crate::protocol::or_empty(
                crate::protocol::opt_bytes(user_handshake),
            ).len() <= isize::MAX,
        ensures
            step.wf(),
            step@ matches DialStepView::Connect(dial) && {
                &&& dial == DialView::<S>::start(
                    num_streams as nat,
                    dial.stream_id,
                    crate::protocol::opt_bytes(user_handshake),
                )
                &&& dial.stream_id is Some <==> num_streams > 1
                &&& dial.stream_id matches Some(id) ==> crate::stream_id::is_random_uuid(id@)
                &&& dial.stream_id matches Some(id) ==> call_ensures(StreamId::new_v4, (), id)
                &&& dial.stream_id matches Some(id) ==> id.is_drawn()
            },
    {
        Dial::start(num_streams, new_stream_id(num_streams), user_handshake)
    }

    /// The identifier of the connection, if it has more than one stream.
    pub fn stream_id(&self) -> (stream_id: Option<StreamId>)
        ensures
            stream_id == self@.stream_id,
    {
        self.stream_id
    }

    /// The place of the stream that is being opened: the number of those that are
    /// up.
    pub fn index(&self) -> (index: usize)
        ensures
            index == self@.sockets.len(),
    {
        self.sockets.len()
    }

    /// The socket that the packet in question goes out on: that of the stream to
    /// be announced, or else the first.
    pub fn socket(&self) -> (socket: Option<&S>)
        ensures
            match socket {
                Some(s) => match self@.pending {
                    Some(pending) => *s == pending,
                    None => self@.sockets.len() > 0 && *s == self@.sockets[0],
                },
                None => self@.pending is None && self@.sockets.len() == 0,
            },
    {
        match &self.pending {
            Some(socket) => Some(socket),
            None => if self.sockets.len() > 0 {
                Some(&self.sockets[0])
            } else {
                None
            },
        }
    }

    /// What to do about the outcome of the last step.
    pub fn step(self, event: DialEvent<S>) -> (step: DialStep<S>)
        requires
            self.wf(),
            self@.expects(event),
        ensures
            step.wf(),
            step@ == self@.step(event),
            event is ConnectFailed || event is SendFailed ==> step is GiveUp,
            event is Sent && self@.pending is None ==> (step matches DialStep::Open(multi_stream)
                && multi_stream.streams() == self@.sockets && multi_stream.ticket() == 0),
            event matches DialEvent::Connected(socket) ==> (first_bytes(
                self@.stream_id,
                self@.sockets.len(),
                self@.num_streams,
                self@.user_handshake,
            ).len() > 0 ==> (step matches DialStep::Announce { dial, packet } && packet@
                == first_bytes(
                self@.stream_id,
                self@.sockets.len(),
                self@.num_streams,
                self@.user_handshake,
            ) && dial@.pending == Some(socket) && dial@.sockets == self@.sockets)),
            ({
                let up = match event {
                    DialEvent::Connected(socket) => if first_bytes(
                        self@.stream_id,
                        self@.sockets.len(),
                        self@.num_streams,
                        self@.user_handshake,
                    ).len() == 0 {
                        Some(socket)
                    } else {
                        None
                    },
                    DialEvent::Sent => self@.pending,
                    _ => None,
                };
                up matches Some(socket) ==> match step {
                    DialStep::Connect(dial) => self@.sockets.len() + 1 < self@.num_streams
                        && dial@.sockets == self@.sockets.push(socket) && dial@.pending is None,
                    DialStep::Forward(dial) => self@.sockets.len() + 1 == self@.num_streams
                        && dial@.sockets == self@.sockets.push(socket) && dial@.pending is None,
                    _ => false,
                }
            }),
    {
        let mut dial = self;
        match event {
            DialEvent::Connected(socket) => {
                let user_handshake = match &dial.user_handshake {
                    Some(user_packet) => Some(user_packet.as_slice()),
                    None => None,
                };
                let packet = handshake_to_send(
                    &dial.stream_id,
                    dial.sockets.len(),
                    dial.num_streams,
                    user_handshake,
                );
                if packet.len() == 0 {
                    dial.sockets.push(socket);
                    dial.proceed()
                } else {
                    dial.pending = Some(socket);
                    DialStep::Announce { dial, packet }
                }
            },
            DialEvent::Sent => {
                match dial.pending {
                    Some(socket) => {
                        dial.pending = None;
                        dial.sockets.push(socket);
                        dial.proceed()
                    },
                    None => DialStep::Open(MultiStream::new(dial.sockets)),
                }
            },
            DialEvent::ConnectFailed => DialStep::GiveUp,
            DialEvent::SendFailed => DialStep::GiveUp,
        }
    }

    /// What to do once a stream is up.
    fn proceed(self) -> (step: DialStep<S>)
        requires
            self.wf(),
            self@.pending is None,
        ensures
            step.wf(),
            step@ == self@.proceed(),
    {
        if self.sockets.len() < self.num_streams {
            DialStep::Connect(self)
        } else {
            DialStep::Forward(self)
        }
    }
}

/// The dial after streams have come up without failure, one for each of
/// `sockets`: each is connected and, if there is something to send first on it,
/// announced.
pub open spec fn after_success<S>(dial: DialView<S>, sockets: Seq<S>) -> DialStepView<S>
    decreases sockets.len(),
{
    if sockets.len() == 0 {
        DialStepView::Connect(dial)
    } else {
        let step = match after_success(dial, sockets.drop_last()) {
            DialStepView::Connect(d) => d.step(DialEvent::Connected(sockets.last())),
            other => other,
        };
        match step {
            DialStepView::Announce(d, packet) => d.step(DialEvent::Sent),
            other => other,
        }
    }
}

/// If nothing fails, the connection opens: once every stream has come up, the
/// first UDP packet is forwarded, and with that the connection is open over the
/// streams in the order in which they were connected.
pub proof fn dial_succeeds_without_failure<S>(
    num_streams: nat,
    stream_id: Option<StreamId>,
    user_handshake: Option<Seq<u8>>,
    sockets: Seq<S>,
)
    requires
        num_streams > 0,
        sockets.len() == num_streams,
    ensures
        after_success(
            DialView::<S>::start(num_streams, stream_id, user_handshake),
            sockets,
        ) matches DialStepView::Forward(dial) && dial.sockets == sockets && dial.expects(
            DialEvent::Sent,
        ) && dial.step(DialEvent::Sent) == DialStepView::Open(sockets),
{
    lemma_streams_come_up(
        DialView::<S>::start(num_streams, stream_id, user_handshake),
        sockets,
    );
}

/// Streams are announced in turn: after some have come up, the next one to connect
/// is announced with the place that follows theirs.
pub proof fn streams_are_announced_in_turn<S>(
    num_streams: nat,
    stream_id: Option<StreamId>,
    user_handshake: Option<Seq<u8>>,
    sockets: Seq<S>,
)
    requires
        sockets.len() < num_streams,
    ensures
        after_success(
            DialView::<S>::start(num_streams, stream_id, user_handshake),
            sockets,
        ) matches DialStepView::Connect(dial) && dial.sockets == sockets && dial.connecting()
            && dial.next_handshake() == first_bytes(
            stream_id,
            sockets.len(),
            num_streams,
            user_handshake,
        ),
{
    lemma_streams_come_up(
        DialView::<S>::start(num_streams, stream_id, user_handshake),
        sockets,
    );
}

/// The streams that have come up are those that were connected, in that order.
proof fn lemma_streams_come_up<S>(dial: DialView<S>, sockets: Seq<S>)
    requires
        dial.sockets.len() == 0,
        dial.pending is None,
        dial.num_streams > 0,
        sockets.len() <= dial.num_streams,
    ensures
        after_success(dial, sockets) == (DialView { sockets, ..dial }).proceed(),
    decreases sockets.len(),
{
    if sockets.len() == 0 {
        assert(dial.sockets =~= sockets);
    } else {
        lemma_streams_come_up(dial, sockets.drop_last());
        let before = DialView { sockets: sockets.drop_last(), ..dial };
        assert(sockets.drop_last().push(sockets.last()) =~= sockets);
        assert(before.with_stream(sockets.last()) =~= DialView { sockets, ..dial });
        let waiting = DialView { pending: Some(sockets.last()), ..before };
        assert(waiting.with_stream(sockets.last()) =~= DialView { sockets, ..dial });
    }
}

/// Any failure ends the attempt.
pub proof fn dial_gives_up_on_failure<S>(dial: DialView<S>)
    requires
        dial.valid(),
    ensures
        dial.connecting() ==> dial.step(DialEvent::ConnectFailed) == DialStepView::<S>::GiveUp,
        !dial.connecting() ==> dial.step(DialEvent::SendFailed) == DialStepView::<S>::GiveUp,
{
}

/// A connection never opens with fewer streams than asked for, nor with more.
pub proof fn open_connection_has_all_streams<S>(dial: DialView<S>, event: DialEvent<S>)
    requires
        dial.valid(),
        dial.expects(event),
    ensures
        dial.step(event) matches DialStepView::Open(sockets) ==> sockets.len() == dial.num_streams,
{
}

/// A stream says what it belongs to: what is sent first on stream `index` is, to
/// whoever reads it, the announcement of the identifier, of the low eight bits of
/// the index and of the number of streams, and of the user's packet.
pub proof fn stream_announces_itself(
    stream_id: StreamId,
    index: nat,
    num_streams: nat,
    user_handshake: Option<Seq<u8>>,
)
    ensures
        crate::protocol::handshake_of(
            first_bytes(Some(stream_id), index, num_streams, user_handshake),
        ) == Some(
            crate::protocol::Handshake {
                stream_id: stream_id@,
                stream_index: (index % 256) as u8,
                total_streams: (num_streams % 256) as u8,
                user_payload: if crate::protocol::or_empty(user_handshake).len() > 0 {
                    Some(crate::protocol::or_empty(user_handshake))
                } else {
                    None
                },
            },
        ),
{
    crate::protocol::parse_gives_back_build(
        stream_id,
        (index % 256) as u8,
        (num_streams % 256) as u8,
        crate::protocol::or_empty(user_handshake),
    );
}

/// A stream says its place among the streams and their number, as long as one
/// byte can hold that number.
pub proof fn stream_announces_its_index(
    stream_id: StreamId,
    index: nat,
    num_streams: nat,
    user_handshake: Option<Seq<u8>>,
)
    requires
        index < num_streams <= 255,
    ensures
        crate::protocol::handshake_of(
            first_bytes(Some(stream_id), index, num_streams, user_handshake),
        ) matches Some(info) && info.stream_index == index && info.total_streams == num_streams,
{
    stream_announces_itself(stream_id, index, num_streams, user_handshake);
}

/// A single stream sends the user's packet as it stands, without any header.
pub proof fn single_stream_has_no_header(user_handshake: Option<Seq<u8>>)
    ensures
        first_bytes(None, 0, 1, user_handshake) == crate::protocol::or_empty(user_handshake),
{
}

/// Several streams are announced, each of them, and a single one is not: of a
/// connection that has an identifier exactly if it has more than one stream, what
/// a stream sends first reads as an announcement if and only if there are several
/// streams, or the user's own packet reads as one.
pub proof fn streams_are_announced_iff_several(
    stream_id: Option<StreamId>,
    index: nat,
    num_streams: nat,
    user_handshake: Option<Seq<u8>>,
)
    requires
        stream_id is Some <==> num_streams > 1,
        index < num_streams,
    ensures
        crate::protocol::is_multistream(
            first_bytes(stream_id, index, num_streams, user_handshake),
        ) <==> num_streams > 1 || crate::protocol::is_multistream(
            crate::protocol::or_empty(user_handshake),
        ),
{
    if let Some(id) = stream_id {
        stream_announces_itself(id, index, num_streams, user_handshake);
    }
}

/// What is sent first, byte by byte: with an identifier the header with the low
/// eight bits of the index and of the number of streams, and then the user's packet
/// as the user gave it, of whatever length; without one the user's packet alone.
pub proof fn first_bytes_layout(
    stream_id: Option<StreamId>,
    index: nat,
    num_streams: nat,
    user_handshake: Option<Seq<u8>>,
)
    ensures
        ({
            let bytes = first_bytes(stream_id, index, num_streams, user_handshake);
            let start: int = if stream_id is Some {
                23
            } else {
                0
            };
            &&& stream_id matches Some(id) ==> {
                &&& bytes[0] == 0x50
                &&& bytes[1] == 0x4d
                &&& bytes[2] == 0x54
                &&& bytes[3] == 0x53
                &&& bytes[4] == 1
                &&& forall|i: int| 0 <= i < 16 ==> bytes[5 + i] == #[trigger] id@[i]
                &&& bytes[21] == index % 256
                &&& bytes[22] == num_streams % 256
            }
            &&& match user_handshake {
                Some(user) => bytes.len() == start + user.len() && forall|i: int|
                    0 <= i < user.len() ==> bytes[start + i] == #[trigger] user[i],
                None => bytes.len() == start,
            }
        }),
{
    if let Some(id) = stream_id {
        crate::stream_id::bytes_spell_the_number(id, 0);
        crate::protocol::packet_layout(
            id@,
            (index % 256) as u8,
            (num_streams % 256) as u8,
            crate::protocol::or_empty(user_handshake),
        );
    }
}

/// A dial starts with nothing opened, and with what it was given.
pub proof fn dial_starts_from_nothing<S>(
    num_streams: nat,
    stream_id: Option<StreamId>,
    user_handshake: Option<Seq<u8>>,
)
    ensures
        ({
            let dial = DialView::<S>::start(num_streams, stream_id, user_handshake);
            &&& dial.num_streams == num_streams
            &&& dial.stream_id == stream_id
            &&& dial.user_handshake == user_handshake
            &&& dial.sockets.len() == 0
            &&& dial.pending is None
        }),
{
}

/// A connected stream is announced with all that it has to send first, whatever
/// its length, in one packet; and if it has nothing to send first, it is not
/// announced.
pub proof fn announced_packet_is_whole<S>(dial: DialView<S>, socket: S)
    ensures
        ({
            let bytes = first_bytes(
                dial.stream_id,
                dial.sockets.len(),
                dial.num_streams,
                dial.user_handshake,
            );
            &&& dial.step(DialEvent::Connected(socket)) is Announce <==> bytes.len() > 0
            &&& dial.step(DialEvent::Connected(socket)) matches DialStepView::Announce(d, packet)
                ==> packet.len() == bytes.len() && (forall|i: int|
                0 <= i < bytes.len() ==> #[trigger] packet[i] == bytes[i]) && d.pending == Some(
                socket,
            ) && d.sockets == dial.sockets
        }),
{
}

/// A stream that has nothing to send first, or that has sent it, is up: it comes
/// after those that are up already, and the next stream is connected, or with the
/// last one the first datagram is forwarded.
pub proof fn stream_comes_up<S>(dial: DialView<S>, socket: S)
    requires
        dial.sockets.len() < dial.num_streams,
    ensures
        ({
            let bytes = first_bytes(
                dial.stream_id,
                dial.sockets.len(),
                dial.num_streams,
                dial.user_handshake,
            );
            let step = if bytes.len() == 0 {
                dial.step(DialEvent::Connected(socket))
            } else {
                match dial.step(DialEvent::Connected(socket)) {
                    DialStepView::Announce(d, _) => d.step(DialEvent::Sent),
                    other => other,
                }
            };
            match step {
                DialStepView::Connect(d) => d.sockets == dial.sockets.push(socket)
                    && d.pending is None && d.sockets.len() < dial.num_streams,
                DialStepView::Forward(d) => d.sockets == dial.sockets.push(socket)
                    && d.pending is None && d.sockets.len() == dial.num_streams,
                _ => false,
            }
        }),
{
}

/// What a dial was started with stays: the number of streams, the identifier and
/// the user's packet.
pub proof fn dial_keeps_its_settings<S>(dial: DialView<S>, event: DialEvent<S>)
    ensures
        match dial.step(event) {
            DialStepView::Connect(d) => d.num_streams == dial.num_streams && d.stream_id
                == dial.stream_id && d.user_handshake == dial.user_handshake,
            DialStepView::Announce(d, _) => d.num_streams == dial.num_streams && d.stream_id
                == dial.stream_id && d.user_handshake == dial.user_handshake,
            DialStepView::Forward(d) => d.num_streams == dial.num_streams && d.stream_id
                == dial.stream_id && d.user_handshake == dial.user_handshake,
            DialStepView::Open(_) => true,
            DialStepView::GiveUp => true,
        },
{
}

/// The connection opens when the first datagram is sent, over the streams that are
/// up, and at no other event; and the attempt ends on failures alone.
pub proof fn connection_opens_with_the_first_datagram<S>(dial: DialView<S>, event: DialEvent<S>)
    ensures
        dial.step(event) is Open <==> event is Sent && dial.pending is None,
        dial.step(event) matches DialStepView::Open(sockets) ==> sockets == dial.sockets,
        dial.step(event) is GiveUp <==> event is ConnectFailed || event is SendFailed,
{
}

/// A dial waits for a stream to connect as long as streams are missing and none is
/// being announced, and for the sending of a packet otherwise; it expects success
/// and failure alike.
pub proof fn dial_expects_success_or_failure<S>(dial: DialView<S>, socket: S)
    ensures
        ({
            let missing = dial.pending is None && dial.sockets.len() < dial.num_streams;
            &&& dial.expects(DialEvent::Connected(socket)) <==> missing
            &&& dial.expects(DialEvent::ConnectFailed) <==> missing
            &&& dial.expects(DialEvent::Sent) <==> !missing
            &&& dial.expects(DialEvent::SendFailed) <==> !missing
            &&& dial.connecting() <==> missing
        }),
{
}

} // verus!
