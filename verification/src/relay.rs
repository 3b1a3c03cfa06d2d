//! The workers that move packets between UDP and TCP, and the monitors that end
//! idle connections.

use crate::multi_stream::RoundRobin;
use vstd::prelude::*;

verus! {

/// A connection that has seen no packet for this long is closed.
pub const UDP_TTL_SECS: u64 = 180;

/// What a worker is waiting for.
#[derive(Clone, Copy, Debug, PartialEq, Eq, Structural)]
pub enum RelayState {
    /// That the packet which came with the connection is sent by UDP.
    FirstPacket,
    /// A packet.
    Listening,
    /// A packet by TCP. Receiving by UDP has failed.
    ListeningTcp,
    /// That a packet is sent by UDP.
    SendingUdp,
    /// That a packet is sent by TCP.
    SendingTcp,
    /// Nothing more.
    Stopped,
}

/// What has happened to a worker.
#[derive(Clone, Copy, Debug, PartialEq, Eq, Structural)]
pub enum RelayEvent {
    /// This many bytes came by TCP, or the stream is closed.
    TcpReceived(Option<usize>),
    /// A datagram of this many bytes came by UDP.
    UdpReceived(usize),
    /// Receiving by UDP has failed.
    UdpFailed,
    /// Sending by UDP has succeeded or failed.
    UdpSent(bool),
    /// Sending by TCP has succeeded or failed.
    TcpSent(bool),
    /// The connection was cancelled.
    Cancelled,
}

/// What a worker is to do.
#[derive(Clone, Copy, Debug, PartialEq, Eq, Structural)]
pub enum RelayAction {
    /// Wait for the next packet.
    Listen,
    /// Wait for the next packet by TCP, where the worker takes any; none by UDP.
    ListenTcp,
    /// Tell the monitor that a packet was seen, then wait for the next.
    NotifyAndListen,
    /// Send the bytes that came, this many, by UDP.
    SendUdp(usize),
    /// Send the bytes that came, this many, on the stream with this place.
    SendTcp { stream: usize, size: usize },
    /// Cancel the connection and end.
    CancelAndStop,
    /// End.
    Stop,
}

/// Whether a worker in this state can meet this event.
pub open spec fn relay_expects(state: RelayState, event: RelayEvent) -> bool {
    match state {
        RelayState::FirstPacket => event is UdpSent,
        RelayState::Listening => {
            ||| event is TcpReceived
            ||| event is UdpReceived
            ||| event is UdpFailed
            ||| event is Cancelled
        },
        RelayState::ListeningTcp => event is TcpReceived || event is Cancelled,
        RelayState::SendingUdp => event is UdpSent,
        RelayState::SendingTcp => event is TcpSent,
        RelayState::Stopped => false,
    }
}

/// The state that an action leaves a worker in.
pub open spec fn state_after(action: RelayAction) -> RelayState {
    match action {
        RelayAction::Listen => RelayState::Listening,
        RelayAction::ListenTcp => RelayState::ListeningTcp,
        RelayAction::NotifyAndListen => RelayState::Listening,
        RelayAction::SendUdp(_) => RelayState::SendingUdp,
        RelayAction::SendTcp { .. } => RelayState::SendingTcp,
        RelayAction::CancelAndStop => RelayState::Stopped,
        RelayAction::Stop => RelayState::Stopped,
    }
}

/// What a worker does about an event, where it is the turn of `stream` to take a
/// datagram: it forwards what comes, except that a TCP packet without bytes is
/// only noted; it cancels the connection when a stream closes or a packet cannot
/// be sent; and it ends when the connection is cancelled. After a failure to
/// receive by UDP it does not try again before a packet has come by TCP.
pub open spec fn relay_action(state: RelayState, event: RelayEvent, stream: usize) -> RelayAction {
    match event {
        RelayEvent::TcpReceived(Some(size)) => if size > 0 {
            RelayAction::SendUdp(size)
        } else {
            RelayAction::NotifyAndListen
        },
        RelayEvent::TcpReceived(None) => RelayAction::CancelAndStop,
        RelayEvent::UdpReceived(size) => RelayAction::SendTcp { stream, size },
        RelayEvent::UdpFailed => RelayAction::ListenTcp,
        RelayEvent::UdpSent(true) => if state is FirstPacket {
            RelayAction::Listen
        } else {
            RelayAction::NotifyAndListen
        },
        RelayEvent::UdpSent(false) => RelayAction::CancelAndStop,
        RelayEvent::TcpSent(true) => RelayAction::NotifyAndListen,
        RelayEvent::TcpSent(false) => RelayAction::CancelAndStop,
        RelayEvent::Cancelled => RelayAction::Stop,
    }
}

/// The running number of the next datagram after an event: each datagram takes
/// one turn, and nothing else does.
pub open spec fn ticket_after_event(ticket: usize, event: RelayEvent) -> usize {
    if event is UdpReceived {
        crate::multi_stream::next_ticket(ticket)
    } else {
        ticket
    }
}

/// A worker that moves packets of one connection.
#[derive(Debug)]
pub struct Relay {
    state: RelayState,
}

impl View for Relay {
    type V = RelayState;

    closed spec fn view(&self) -> RelayState {
        self.state
    }
}

/// The state that a worker starts in.
pub open spec fn relay_start(first_packet: bool) -> RelayState {
    if first_packet {
        RelayState::FirstPacket
    } else {
        RelayState::Listening
    }
}

impl Relay {
    /// A worker that waits for packets; before that, with `first_packet`, for the
    /// sending of the packet that came with the connection.
    pub fn new(first_packet: bool) -> (relay: Relay)
        ensures
            relay@ == relay_start(first_packet),
    {
        if first_packet {
            Relay { state: RelayState::FirstPacket }
        } else {
            Relay { state: RelayState::Listening }
        }
    }

    /// What to do about an event. `turns` deals the datagrams out to the `streams`
    /// streams of the connection.
    pub fn step(&mut self, turns: &mut RoundRobin, streams: usize, event: RelayEvent) -> (action:
        RelayAction)
        requires
            relay_expects(old(self)@, event),
            event is UdpReceived ==> streams > 0,
        ensures
            action == relay_action(
                old(self)@,
                event,
                crate::multi_stream::round_robin_index(
                    old(turns)@ as nat,
                    streams as nat,
                ) as usize,
            ),
            final(self)@ == state_after(action),
            final(turns)@ == ticket_after_event(old(turns)@, event),
            event matches RelayEvent::UdpReceived(size) ==> action == (RelayAction::SendTcp {
                stream: (old(turns)@ as int % streams as int) as usize,
                size,
            }) && final(turns)@ == (old(turns)@ + 1) % (usize::MAX + 1),
            !(event is UdpReceived) ==> final(turns)@ == old(turns)@,
            event matches RelayEvent::TcpReceived(Some(size)) ==> action == if size > 0 {
                RelayAction::SendUdp(size)
            } else {
                RelayAction::NotifyAndListen
            },
            event == RelayEvent::TcpReceived(None) || event == RelayEvent::UdpSent(false) || event
                == RelayEvent::TcpSent(false) ==> action == RelayAction::CancelAndStop,
            event is Cancelled ==> action == RelayAction::Stop,
    {
        let action = match event {
            RelayEvent::TcpReceived(Some(size)) => if size > 0 {
                RelayAction::SendUdp(size)
            } else {
                RelayAction::NotifyAndListen
            },
            RelayEvent::TcpReceived(None) => RelayAction::CancelAndStop,
            RelayEvent::UdpReceived(size) => {
                let stream: usize = turns.next_index(streams);
                RelayAction::SendTcp { stream, size }
            },
            RelayEvent::UdpFailed => RelayAction::ListenTcp,
            RelayEvent::UdpSent(sent) => if !sent {
                RelayAction::CancelAndStop
            } else if matches!(self.state, RelayState::FirstPacket) {
                RelayAction::Listen
            } else {
                RelayAction::NotifyAndListen
            },
            RelayEvent::TcpSent(sent) => if sent {
                RelayAction::NotifyAndListen
            } else {
                RelayAction::CancelAndStop
            },
            RelayEvent::Cancelled => RelayAction::Stop,
        };
        self.state = match action {
            RelayAction::Listen => RelayState::Listening,
            RelayAction::ListenTcp => RelayState::ListeningTcp,
            RelayAction::NotifyAndListen => RelayState::Listening,
            RelayAction::SendUdp(_) => RelayState::SendingUdp,
            RelayAction::SendTcp { .. } => RelayState::SendingTcp,
            RelayAction::CancelAndStop => RelayState::Stopped,
            RelayAction::Stop => RelayState::Stopped,
        };
        action
    }
}

/// What is forwarded is what came, whole: a worker sends bytes by UDP exactly
/// when that many came by TCP, and by TCP, on the stream whose turn it is, exactly
/// when that many came by UDP.
pub proof fn packets_are_forwarded_whole(
    state: RelayState,
    event: RelayEvent,
    turn: usize,
    stream: usize,
    size: usize,
)
    requires
        relay_expects(state, event),
    ensures
        relay_action(state, event, turn) == RelayAction::SendUdp(size) <==> event
            == RelayEvent::TcpReceived(Some(size)) && size > 0,
        relay_action(state, event, turn) == (RelayAction::SendTcp { stream, size }) <==> event
            == RelayEvent::UdpReceived(size) && stream == turn,
{
}

/// A worker ends only with its connection: unless the connection is cancelled
/// already, a worker that ends cancels it.
pub proof fn worker_ends_with_its_connection(state: RelayState, event: RelayEvent, turn: usize)
    requires
        relay_expects(state, event),
    ensures
        state_after(relay_action(state, event, turn)) == RelayState::Stopped <==> (event
            == RelayEvent::Cancelled || relay_action(state, event, turn)
            == RelayAction::CancelAndStop),
{
}

/// How many datagrams are among the events.
pub open spec fn datagrams(events: Seq<RelayEvent>) -> nat
    decreases events.len(),
{
    if events.len() == 0 {
        0
    } else {
        datagrams(events.drop_last()) + if events.last() is UdpReceived {
            1nat
        } else {
            0
        }
    }
}

/// The running number of the next datagram after these events.
pub open spec fn ticket_after_events(ticket: usize, events: Seq<RelayEvent>) -> usize
    decreases events.len(),
{
    if events.len() == 0 {
        ticket
    } else {
        ticket_after_event(ticket_after_events(ticket, events.drop_last()), events.last())
    }
}

/// Each datagram takes one turn.
pub proof fn datagrams_take_turns(ticket: usize, events: Seq<RelayEvent>)
    ensures
        ticket_after_events(ticket, events) == crate::multi_stream::ticket_after(
            ticket,
            datagrams(events),
        ),
    decreases events.len(),
{
    if events.len() > 0 {
        datagrams_take_turns(ticket, events.drop_last());
    }
}

/// Datagrams are spread over the streams in turn: the datagram with the number
/// `k`, counted from 0, goes to stream `k % streams`. (The one that opened the
/// connection is not counted.)
///
/// `events` are those of all workers that share the turn, in their order; event
/// number `i` comes to a worker in state `state`. Left out is what comes after the
/// counter has started again at 0, unless the number of streams divides the number
/// of tickets.
pub proof fn datagram_goes_to_stream_in_turn(
    events: Seq<RelayEvent>,
    i: int,
    state: RelayState,
    streams: nat,
    size: usize,
)
    requires
        0 <= i < events.len(),
        events[i] == RelayEvent::UdpReceived(size),
        0 < streams <= usize::MAX,
        datagrams(events.take(i)) <= usize::MAX || crate::multi_stream::ticket_count() % (
        streams as int) == 0,
    ensures
        relay_action(
            state,
            events[i],
            crate::multi_stream::round_robin_index(
                ticket_after_events(0, events.take(i)) as nat,
                streams,
            ) as usize,
        ) == (RelayAction::SendTcp {
            stream: (datagrams(events.take(i)) % streams) as usize,
            size,
        }),
{
    datagrams_take_turns(0, events.take(i));
    crate::multi_stream::stream_of_later_packet(0, datagrams(events.take(i)), streams);
}

/// The state after an event. Which stream has its turn makes no difference to it.
pub open spec fn relay_next(state: RelayState, event: RelayEvent) -> RelayState {
    state_after(relay_action(state, event, 0))
}

/// Whether a worker can meet these events one after the other.
pub open spec fn relay_can_meet(state: RelayState, events: Seq<RelayEvent>) -> bool
    decreases events.len(),
{
    events.len() == 0 || relay_can_meet(state, events.drop_last()) && relay_expects(
        relay_state(state, events.drop_last()),
        events.last(),
    )
}

/// The state of a worker after these events.
pub open spec fn relay_state(state: RelayState, events: Seq<RelayEvent>) -> RelayState
    decreases events.len(),
{
    if events.len() == 0 {
        state
    } else {
        relay_next(relay_state(state, events.drop_last()), events.last())
    }
}

/// How often a worker has told the monitor of a packet.
pub open spec fn packets_noted(state: RelayState, events: Seq<RelayEvent>) -> nat
    decreases events.len(),
{
    if events.len() == 0 {
        0
    } else {
        packets_noted(state, events.drop_last()) + if relay_action(
            relay_state(state, events.drop_last()),
            events.last(),
            0,
        ) == RelayAction::NotifyAndListen {
            1nat
        } else {
            0
        }
    }
}

/// How many packets have come to a worker.
pub open spec fn packets_received(events: Seq<RelayEvent>) -> nat
    decreases events.len(),
{
    if events.len() == 0 {
        0
    } else {
        packets_received(events.drop_last()) + match events.last() {
            RelayEvent::TcpReceived(Some(_)) => 1nat,
            RelayEvent::UdpReceived(_) => 1,
            _ => 0,
        }
    }
}

/// Every packet counts as a sign of life, once: whenever a worker waits for the
/// next packet, it has told the monitor once of each packet that came to it. (The
/// packet that came with the connection is not among them.)
pub proof fn every_packet_is_noted_once(first_packet: bool, events: Seq<RelayEvent>)
    requires
        relay_can_meet(relay_start(first_packet), events),
        relay_state(relay_start(first_packet), events) == RelayState::Listening || relay_state(
            relay_start(first_packet),
            events,
        ) == RelayState::ListeningTcp,
    ensures
        packets_noted(relay_start(first_packet), events) == packets_received(events),
{
    lemma_packets_noted(relay_start(first_packet), events);
}

proof fn lemma_packets_noted(start: RelayState, events: Seq<RelayEvent>)
    requires
        start == RelayState::FirstPacket || start == RelayState::Listening,
        relay_can_meet(start, events),
    ensures
        match relay_state(start, events) {
            RelayState::FirstPacket => packets_noted(start, events) == packets_received(events),
            RelayState::Listening => packets_noted(start, events) == packets_received(events),
            RelayState::ListeningTcp => packets_noted(start, events) == packets_received(events),
            RelayState::SendingUdp => packets_noted(start, events) + 1 == packets_received(events),
            RelayState::SendingTcp => packets_noted(start, events) + 1 == packets_received(events),
            RelayState::Stopped => true,
        },
    decreases events.len(),
{
    if events.len() > 0 {
        lemma_packets_noted(start, events.drop_last());
    }
}

/// A worker that has failed to receive by UDP takes no datagram before something
/// has come to it by TCP. One that takes nothing by TCP takes no datagram again.
pub proof fn failed_udp_waits_for_tcp(
    start: RelayState,
    events: Seq<RelayEvent>,
    i: int,
    j: int,
)
    requires
        relay_can_meet(start, events),
        0 <= i < j < events.len(),
        events[i] is UdpFailed,
        events[j] is UdpReceived,
    ensures
        exists|k: int| i < k < j && #[trigger] events[k] is TcpReceived,
{
    if forall|k: int| i < k < j ==> !(#[trigger] events[k] is TcpReceived) {
        lemma_prefix_can_be_met(start, events, j + 1);
        assert(events.take(j + 1).drop_last() =~= events.take(j));
        lemma_deaf_until_tcp(start, events, i, j);
    }
}

/// What can be met can be met as far as one likes.
proof fn lemma_prefix_can_be_met(start: RelayState, events: Seq<RelayEvent>, n: int)
    requires
        relay_can_meet(start, events),
        0 <= n <= events.len(),
    ensures
        relay_can_meet(start, events.take(n)),
    decreases events.len(),
{
    if n == events.len() {
        assert(events.take(n) =~= events);
    } else {
        lemma_prefix_can_be_met(start, events.drop_last(), n);
        assert(events.drop_last().take(n) =~= events.take(n));
    }
}

/// After a failure to receive by UDP, and as long as nothing comes by TCP, a worker
/// waits for nothing by UDP.
proof fn lemma_deaf_until_tcp(start: RelayState, events: Seq<RelayEvent>, i: int, n: int)
    requires
        relay_can_meet(start, events.take(n)),
        0 <= i < n <= events.len(),
        events[i] is UdpFailed,
        forall|k: int| i < k < n ==> !(#[trigger] events[k] is TcpReceived),
    ensures
        relay_state(start, events.take(n)) == RelayState::ListeningTcp || relay_state(
            start,
            events.take(n),
        ) == RelayState::Stopped,
    decreases n,
{
    assert(events.take(n).drop_last() =~= events.take(n - 1));
    if n > i + 1 {
        lemma_deaf_until_tcp(start, events, i, n - 1);
    }
}

/// A worker to start.
#[derive(Clone, Copy, Debug, PartialEq, Eq, Structural)]
pub enum Worker {
    /// Moves what comes on the stream with this place to UDP.
    TcpToUdp { stream: usize, worker: usize },
    /// Moves what comes by UDP to the streams, in turn.
    UdpToTcp { worker: usize },
    /// Moves packets both ways on a connection of one stream. One worker also
    /// forwards the packet that came with the connection.
    Both { worker: usize, first_packet: bool },
}

/// One worker per core for each of `streams` streams.
pub open spec fn tcp_workers(streams: nat, cores: nat) -> Seq<Worker>
    decreases streams,
{
    if streams == 0 {
        seq![]
    } else {
        tcp_workers((streams - 1) as nat, cores) + Seq::new(
            cores,
            |w: int| Worker::TcpToUdp { stream: (streams - 1) as usize, worker: w as usize },
        )
    }
}

/// One worker per core for what comes by UDP.
pub open spec fn udp_workers(cores: nat) -> Seq<Worker> {
    Seq::new(cores, |w: int| Worker::UdpToTcp { worker: w as usize })
}

/// Each stream has a worker on each core.
pub proof fn every_stream_is_served(streams: nat, cores: nat, stream: usize, worker: usize)
    requires
        streams <= usize::MAX,
        stream < streams,
        worker < cores,
    ensures
        tcp_workers(streams, cores).contains(Worker::TcpToUdp { stream, worker }),
    decreases streams,
{
    let fewer = tcp_workers((streams - 1) as nat, cores);
    let all = tcp_workers(streams, cores);
    let wanted = Worker::TcpToUdp { stream, worker };
    if stream == streams - 1 {
        assert(all[fewer.len() + worker as int] == wanted);
    } else {
        every_stream_is_served((streams - 1) as nat, cores, stream, worker);
        let i = choose|i: int| 0 <= i < fewer.len() && fewer[i] == wanted;
        assert(all[i] == wanted);
    }
}

/// There are as many workers for what comes by TCP as streams on all cores, and
/// each stands in its place: those of one stream follow each other, and so do the
/// streams. Hence none is missing, none is there twice, and there are no others.
pub proof fn tcp_worker_stands_in_its_place(
    streams: nat,
    cores: nat,
    stream: usize,
    worker: usize,
)
    requires
        streams <= usize::MAX,
        cores <= usize::MAX,
        stream < streams,
        worker < cores,
    ensures
        tcp_workers(streams, cores).len() == streams * cores,
        0 <= stream * cores + worker < streams * cores,
        tcp_workers(streams, cores)[stream * cores + worker] == (Worker::TcpToUdp {
            stream,
            worker,
        }),
    decreases streams,
{
    let fewer = tcp_workers((streams - 1) as nat, cores);
    lemma_tcp_workers_len(streams, cores);
    lemma_tcp_workers_len((streams - 1) as nat, cores);
    assert(0 <= stream * cores + worker < streams * cores) by (nonlinear_arith)
        requires
            0 <= stream < streams,
            0 <= worker < cores,
    ;
    if stream < streams - 1 {
        tcp_worker_stands_in_its_place((streams - 1) as nat, cores, stream, worker);
    } else {
        assert(tcp_workers(streams, cores)[fewer.len() + worker] == (Worker::TcpToUdp {
            stream,
            worker,
        }));
    }
}

proof fn lemma_tcp_workers_len(streams: nat, cores: nat)
    ensures
        tcp_workers(streams, cores).len() == streams * cores,
    decreases streams,
{
    if streams > 0 {
        lemma_tcp_workers_len((streams - 1) as nat, cores);
        assert((streams - 1) * cores + cores == streams * cores) by (nonlinear_arith);
    } else {
        assert(streams * cores == 0) by (nonlinear_arith)
            requires
                streams == 0,
        ;
    }
}

/// There is one worker for what comes by UDP on each core, in the order of the
/// cores, and there are no others.
pub proof fn every_core_serves_udp(cores: nat, worker: usize)
    requires
        cores <= usize::MAX,
        worker < cores,
    ensures
        udp_workers(cores).len() == cores,
        udp_workers(cores)[worker as int] == (Worker::UdpToTcp { worker }),
        udp_workers(cores).contains(Worker::UdpToTcp { worker }),
{
    assert(udp_workers(cores)[worker as int] == (Worker::UdpToTcp { worker }));
}

/// Without cores there are no workers, and without streams none for TCP.
pub proof fn no_cores_no_workers(streams: nat, cores: nat)
    ensures
        udp_workers(0).len() == 0,
        tcp_workers(streams, 0).len() == 0,
        tcp_workers(0, cores).len() == 0,
{
    lemma_tcp_workers_len(streams, 0);
    lemma_tcp_workers_len(0, cores);
    assert(streams * 0 == 0);
    assert(0 * cores == 0);
}

proof fn lemma_workers_in_place(streams: usize, cores: usize)
    ensures
        tcp_workers(streams as nat, cores as nat).len() == streams * cores,
        udp_workers(cores as nat).len() == cores,
        forall|i: int|
            0 <= i < streams * cores ==> #[trigger] tcp_workers(streams as nat, cores as nat)[i] == (
            Worker::TcpToUdp {
                stream: (i / cores as int) as usize,
                worker: (i % cores as int) as usize,
            }),
        forall|i: int|
            0 <= i < cores ==> #[trigger] udp_workers(cores as nat)[i] == (Worker::UdpToTcp {
                worker: i as usize,
            }),
{
    lemma_tcp_workers_len(streams as nat, cores as nat);
    let c = cores as int;
    assert forall|i: int| 0 <= i < streams * cores implies #[trigger] tcp_workers(
        streams as nat,
        cores as nat,
    )[i] == (Worker::TcpToUdp { stream: (i / c) as usize, worker: (i % c) as usize }) by {
        assert(c > 0) by (nonlinear_arith)
            requires
                0 <= i < streams * c,
                c >= 0,
        ;
        vstd::arithmetic::div_mod::lemma_fundamental_div_mod(i, c);
        vstd::arithmetic::div_mod::lemma_mod_bound(i, c);
        assert(0 <= i / c < streams && i == i / c * c + i % c) by (nonlinear_arith)
            requires
                0 <= i < streams * c,
                c > 0,
                i == c * (i / c) + i % c,
                0 <= i % c < c,
        ;
        tcp_worker_stands_in_its_place(
            streams as nat,
            cores as nat,
            (i / c) as usize,
            (i % c) as usize,
        );
    }
}

/// Adds the workers for what comes by TCP.
fn push_tcp_workers(workers: &mut Vec<Worker>, streams: usize, cores: usize)
    ensures
        final(workers)@ == old(workers)@ + tcp_workers(streams as nat, cores as nat),
{
    let ghost before = workers@;
    let mut stream: usize = 0;
    while stream < streams
        invariant
            stream <= streams,
            workers@ == before + tcp_workers(stream as nat, cores as nat),
        decreases streams - stream,
    {
        let ghost so_far = workers@;
        let mut worker: usize = 0;
        while worker < cores
            invariant
                worker <= cores,
                workers@ =~= so_far + Seq::new(
                    worker as nat,
                    |w: int| Worker::TcpToUdp { stream, worker: w as usize },
                ),
            decreases cores - worker,
        {
            workers.push(Worker::TcpToUdp { stream, worker });
            worker = worker + 1;
        }
        stream = stream + 1;
        assert(workers@ =~= before + tcp_workers(stream as nat, cores as nat));
    }
}

/// Adds the workers for what comes by UDP.
fn push_udp_workers(workers: &mut Vec<Worker>, cores: usize)
    ensures
        final(workers)@ == old(workers)@ + udp_workers(cores as nat),
{
    let ghost before = workers@;
    let mut worker: usize = 0;
    while worker < cores
        invariant
            worker <= cores,
            workers@ =~= before + udp_workers(worker as nat),
        decreases cores - worker,
    {
        workers.push(Worker::UdpToTcp { worker });
        worker = worker + 1;
    }
}

/// The workers of a complete stream group, in the order in which the server
/// starts them.
pub fn stream_group_workers(streams: usize, cores: usize) -> (workers: Vec<Worker>)
    ensures
        workers@ == tcp_workers(streams as nat, cores as nat) + udp_workers(cores as nat),
        workers@.len() == streams * cores + cores,
        forall|i: int|
            0 <= i < streams * cores ==> #[trigger] workers@[i] == (Worker::TcpToUdp {
                stream: (i / cores as int) as usize,
                worker: (i % cores as int) as usize,
            }),
        forall|i: int|
            streams * cores <= i < workers@.len() ==> #[trigger] workers@[i] == (Worker::UdpToTcp {
                worker: (i - streams * cores) as usize,
            }),
{
    let mut workers: Vec<Worker> = Vec::new();
    push_tcp_workers(&mut workers, streams, cores);
    push_udp_workers(&mut workers, cores);
    proof {
        lemma_workers_in_place(streams, cores);
    }
    workers
}

/// The workers of an open connection, in the order in which the client starts
/// them.
pub fn connection_workers(streams: usize, cores: usize) -> (workers: Vec<Worker>)
    ensures
        workers@ == udp_workers(cores as nat) + tcp_workers(streams as nat, cores as nat),
        workers@.len() == cores + streams * cores,
        forall|i: int|
            0 <= i < cores ==> #[trigger] workers@[i] == (Worker::UdpToTcp { worker: i as usize }),
        forall|i: int|
            cores <= i < workers@.len() ==> #[trigger] workers@[i] == (Worker::TcpToUdp {
                stream: ((i - cores) / cores as int) as usize,
                worker: ((i - cores) % cores as int) as usize,
            }),
{
    let mut workers: Vec<Worker> = Vec::new();
    push_udp_workers(&mut workers, cores);
    push_tcp_workers(&mut workers, streams, cores);
    proof {
        lemma_workers_in_place(streams, cores);
    }
    workers
}

/// The workers of a connection of one stream on the server. The first of them
/// forwards the packet that came with the connection.
pub fn legacy_workers(cores: usize) -> (workers: Vec<Worker>)
    ensures
        workers@ == Seq::new(
            cores as nat,
            |w: int| Worker::Both { worker: w as usize, first_packet: w == 0 },
        ),
{
    let mut workers: Vec<Worker> = Vec::new();
    let mut worker: usize = 0;
    while worker < cores
        invariant
            worker <= cores,
            workers@ =~= Seq::new(
                worker as nat,
                |w: int| Worker::Both { worker: w as usize, first_packet: w == 0 },
            ),
        decreases cores - worker,
    {
        workers.push(Worker::Both { worker, first_packet: worker == 0 });
        worker = worker + 1;
    }
    workers
}

/// What a monitor watches over.
#[derive(Clone, Copy, Debug, PartialEq, Eq, Structural)]
pub enum Watched {
    /// A connection of the client, which stands in its table.
    Connection,
    /// A stream group of the server, which stands in its table.
    Group,
    /// A connection of one stream on the server, which stands in no table.
    Legacy,
}

/// What a monitor has noticed.
#[derive(Clone, Copy, Debug, PartialEq, Eq, Structural)]
pub enum MonitorEvent {
    /// A packet was seen.
    PacketSeen,
    /// No packet was seen for as long as a connection may be idle.
    Expired,
    /// The connection was cancelled.
    Cancelled,
}

/// What a monitor does.
#[derive(Clone, Copy, Debug, PartialEq, Eq, Structural)]
pub enum MonitorEffect {
    /// Take what is watched out of its table.
    Remove,
    /// Cancel the connection.
    Cancel,
    /// End.
    Stop,
}

/// Only the client's monitors look out for cancellation.
pub open spec fn monitor_expects(watched: Watched, event: MonitorEvent) -> bool {
    event is Cancelled ==> watched is Connection
}

/// What a monitor does about an event, in this order. A packet has no effect but
/// that the time without packets counts from now.
pub open spec fn monitor_effects(watched: Watched, event: MonitorEvent) -> Seq<MonitorEffect> {
    match event {
        MonitorEvent::PacketSeen => seq![],
        MonitorEvent::Expired => match watched {
            Watched::Legacy => seq![MonitorEffect::Cancel, MonitorEffect::Stop],
            _ => seq![MonitorEffect::Remove, MonitorEffect::Cancel, MonitorEffect::Stop],
        },
        MonitorEvent::Cancelled => seq![MonitorEffect::Remove, MonitorEffect::Stop],
    }
}

/// What a monitor is to do about an event. The effects are to be carried out one
/// after the other, each before the next begins.
pub fn monitor_step(watched: Watched, event: MonitorEvent) -> (effects: Vec<MonitorEffect>)
    requires
        monitor_expects(watched, event),
    ensures
        effects@ == monitor_effects(watched, event),
{
    let mut effects: Vec<MonitorEffect> = Vec::new();
    match event {
        MonitorEvent::PacketSeen => {},
        MonitorEvent::Expired => {
            if !matches!(watched, Watched::Legacy) {
                effects.push(MonitorEffect::Remove);
            }
            effects.push(MonitorEffect::Cancel);
            effects.push(MonitorEffect::Stop);
        },
        MonitorEvent::Cancelled => {
            effects.push(MonitorEffect::Remove);
            effects.push(MonitorEffect::Stop);
        },
    }
    effects
}

/// What is watched leaves its table before its monitor cancels it, so that nothing
/// in a table has been closed for being idle.
pub proof fn removal_comes_before_cancelling(watched: Watched, event: MonitorEvent, i: int)
    requires
        monitor_expects(watched, event),
        !(watched is Legacy),
        0 <= i < monitor_effects(watched, event).len(),
        monitor_effects(watched, event)[i] == MonitorEffect::Cancel,
    ensures
        exists|j: int|
            0 <= j < i && #[trigger] monitor_effects(watched, event)[j] == MonitorEffect::Remove,
{
    assert(monitor_effects(watched, event)[0] == MonitorEffect::Remove);
}

/// A monitor goes on exactly as long as packets are seen: on anything else it
/// ends, after all else that it does.
pub proof fn monitor_ends_unless_packets_come(watched: Watched, event: MonitorEvent, i: int)
    requires
        monitor_expects(watched, event),
        0 <= i < monitor_effects(watched, event).len(),
    ensures
        !(event is PacketSeen),
        monitor_effects(watched, event)[i] == MonitorEffect::Stop <==> i == monitor_effects(
            watched,
            event,
        ).len() - 1,
{
}

/// When a worker does what: for each action the events, and there are no others,
/// at which it is taken.
pub proof fn each_action_has_its_occasions(state: RelayState, event: RelayEvent, turn: usize)
    requires
        relay_expects(state, event),
    ensures
        ({
            let action = relay_action(state, event, turn);
            &&& action == RelayAction::Stop <==> event == RelayEvent::Cancelled
            &&& action == RelayAction::CancelAndStop <==> (event == RelayEvent::TcpReceived(None)
                || event == RelayEvent::UdpSent(false) || event == RelayEvent::TcpSent(false))
            &&& action == RelayAction::ListenTcp <==> event == RelayEvent::UdpFailed
            &&& action == RelayAction::Listen <==> (event == RelayEvent::UdpSent(true) && state
                == RelayState::FirstPacket)
            &&& action == RelayAction::NotifyAndListen <==> (event == RelayEvent::TcpReceived(
                Some(0),
            ) || event == RelayEvent::TcpSent(true) || event == RelayEvent::UdpSent(true) && state
                != RelayState::FirstPacket)
        }),
{
}

/// What a worker waits for, in each state: any packet of whatever size, by either
/// way or by TCP alone, or cancellation; or the outcome of sending, good or bad.
pub proof fn worker_waits_for_what_can_come(event: RelayEvent)
    ensures
        relay_expects(RelayState::Listening, event) <==> match event {
            RelayEvent::TcpReceived(_) => true,
            RelayEvent::UdpReceived(_) => true,
            RelayEvent::UdpFailed => true,
            RelayEvent::Cancelled => true,
            RelayEvent::UdpSent(_) => false,
            RelayEvent::TcpSent(_) => false,
        },
        relay_expects(RelayState::ListeningTcp, event) <==> match event {
            RelayEvent::TcpReceived(_) => true,
            RelayEvent::Cancelled => true,
            _ => false,
        },
        relay_expects(RelayState::FirstPacket, event) <==> match event {
            RelayEvent::UdpSent(_) => true,
            _ => false,
        },
        relay_expects(RelayState::SendingUdp, event) <==> match event {
            RelayEvent::UdpSent(_) => true,
            _ => false,
        },
        relay_expects(RelayState::SendingTcp, event) <==> match event {
            RelayEvent::TcpSent(_) => true,
            _ => false,
        },
        !relay_expects(RelayState::Stopped, event),
{
}

/// A worker that is to listen can meet any packet afterwards, whatever its size;
/// one that is to send waits for the outcome alone, and counts the packet when it
/// is sent; one that is to end meets nothing more.
pub proof fn worker_goes_on_as_its_action_says(
    received: Option<usize>,
    size: usize,
    stream: usize,
    turn: usize,
    sent: bool,
)
    ensures
        relay_expects(state_after(RelayAction::Listen), RelayEvent::TcpReceived(received)),
        relay_expects(state_after(RelayAction::Listen), RelayEvent::UdpReceived(size)),
        relay_expects(state_after(RelayAction::NotifyAndListen), RelayEvent::TcpReceived(received)),
        relay_expects(state_after(RelayAction::NotifyAndListen), RelayEvent::UdpReceived(size)),
        relay_expects(state_after(RelayAction::ListenTcp), RelayEvent::TcpReceived(received)),
        !relay_expects(state_after(RelayAction::ListenTcp), RelayEvent::UdpReceived(size)),
        relay_expects(state_after(RelayAction::SendUdp(size)), RelayEvent::UdpSent(sent)),
        relay_action(state_after(RelayAction::SendUdp(size)), RelayEvent::UdpSent(true), turn)
            == RelayAction::NotifyAndListen,
        relay_expects(
            state_after(RelayAction::SendTcp { stream, size }),
            RelayEvent::TcpSent(sent),
        ),
        state_after(RelayAction::Stop) == RelayState::Stopped,
        state_after(RelayAction::CancelAndStop) == RelayState::Stopped,
{
}

/// A worker starts by listening; one that has a first packet starts by waiting for
/// its sending, and listens when it is sent.
pub proof fn worker_starts_to_listen(turn: usize)
    ensures
        relay_start(false) == RelayState::Listening,
        relay_start(true) == RelayState::FirstPacket,
        relay_action(relay_start(true), RelayEvent::UdpSent(true), turn) == RelayAction::Listen,
{
}

/// A datagram, of whatever size, takes one turn, and nothing else takes any.
pub proof fn only_datagrams_take_turns(ticket: usize, event: RelayEvent)
    ensures
        event matches RelayEvent::UdpReceived(_) ==> ticket_after_event(ticket, event) == (ticket
            + 1) % (usize::MAX + 1),
        !(event is UdpReceived) ==> ticket_after_event(ticket, event) == ticket,
{
    crate::multi_stream::counter_wraps_at_word_size(ticket, 1);
}

/// Datagrams are counted one by one.
pub proof fn datagrams_are_counted(events: Seq<RelayEvent>, event: RelayEvent)
    ensures
        datagrams(seq![]) == 0,
        datagrams(events.push(event)) == datagrams(events) + match event {
            RelayEvent::UdpReceived(_) => 1int,
            _ => 0,
        },
{
    assert(events.push(event).drop_last() =~= events);
}

/// Packets are counted one by one: every datagram, and what comes by TCP unless the
/// stream is closed.
pub proof fn packets_are_counted(events: Seq<RelayEvent>, event: RelayEvent)
    ensures
        packets_received(seq![]) == 0,
        packets_received(events.push(event)) == packets_received(events) + match event {
            RelayEvent::UdpReceived(_) => 1int,
            RelayEvent::TcpReceived(Some(_)) => 1,
            _ => 0,
        },
{
    assert(events.push(event).drop_last() =~= events);
}

/// When a monitor does what: it cancels exactly what is idle, and takes out of its
/// table whatever stands in one and is idle or cancelled.
pub proof fn monitor_closes_what_is_idle(watched: Watched, event: MonitorEvent)
    requires
        monitor_expects(watched, event),
    ensures
        ({
            let effects = monitor_effects(watched, event);
            &&& effects.contains(MonitorEffect::Cancel) <==> event == MonitorEvent::Expired
            &&& effects.contains(MonitorEffect::Remove) <==> event != MonitorEvent::PacketSeen
                && watched != Watched::Legacy
            &&& effects.contains(MonitorEffect::Stop) <==> event != MonitorEvent::PacketSeen
            &&& effects.no_duplicates()
        }),
{
    let effects = monitor_effects(watched, event);
    if event == MonitorEvent::Expired {
        if watched == Watched::Legacy {
            assert(effects[0] == MonitorEffect::Cancel);
            assert(effects[1] == MonitorEffect::Stop);
        } else {
            assert(effects[0] == MonitorEffect::Remove);
            assert(effects[1] == MonitorEffect::Cancel);
            assert(effects[2] == MonitorEffect::Stop);
        }
    } else if event == MonitorEvent::Cancelled {
        assert(effects[0] == MonitorEffect::Remove);
        assert(effects[1] == MonitorEffect::Stop);
    }
}

/// Every monitor looks out for packets and for their absence, and those of the
/// client alone for cancellation.
pub proof fn monitor_looks_out(watched: Watched)
    ensures
        monitor_expects(watched, MonitorEvent::PacketSeen),
        monitor_expects(watched, MonitorEvent::Expired),
        monitor_expects(watched, MonitorEvent::Cancelled) <==> watched == Watched::Connection,
{
}

} // verus!
