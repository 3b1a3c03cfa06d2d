//! Load balancing over the TCP streams of one connection.

use crate::relay::{Relay, RelayAction, RelayEvent};
use vstd::prelude::*;

verus! {

/// The stream that takes the packet with the running number `ticket`.
pub open spec fn round_robin_index(ticket: nat, count: nat) -> nat {
    ticket % count
}

/// The running number that follows `ticket`. The counter has the machine's word
/// size and starts again at 0.
pub open spec fn next_ticket(ticket: usize) -> usize {
    if ticket == usize::MAX {
        0
    } else {
        (ticket + 1) as usize
    }
}

/// A counter that deals packets out in turn.
#[derive(Debug)]
pub struct RoundRobin {
    next: usize,
}

impl View for RoundRobin {
    type V = usize;

    /// The running number of the next packet.
    closed spec fn view(&self) -> usize {
        self.next
    }
}

impl RoundRobin {
    /// Starts with the first stream.
    pub fn new() -> (counter: RoundRobin)
        ensures
            counter@ == 0,
    {
        RoundRobin { next: 0 }
    }

    /// The index, below `count`, that the next packet goes to.
    pub fn next_index(&mut self, count: usize) -> (index: usize)
        requires
            count > 0,
        ensures
            index < count,
            index == round_robin_index(old(self)@ as nat, count as nat),
            index == old(self)@ as int % count as int,
            final(self)@ == next_ticket(old(self)@),
            final(self)@ == (old(self)@ + 1) % (usize::MAX + 1),
    {
        proof {
            counter_wraps_at_word_size(self@, count as nat);
        }
        let index: usize = self.next % count;
        self.next = self.next.wrapping_add(1);
        index
    }
}

/// The TCP streams that carry one UDP connection.
///
/// Packets are spread over the streams in turn, which can improve throughput on
/// multi-core systems by parallelizing the TCP processing. `S` is the handle of a
/// stream.
#[derive(Debug)]
pub struct MultiStream<S> {
    sockets: Vec<S>,
    next_socket: RoundRobin,
}

impl<S> MultiStream<S> {
    /// The streams, in the order of their indices.
    pub closed spec fn streams(&self) -> Seq<S> {
        self.sockets@
    }

    /// The running number of the next packet.
    pub closed spec fn ticket(&self) -> usize {
        self.next_socket@
    }

    /// Balances over `sockets`, starting with the first.
    pub fn new(sockets: Vec<S>) -> (multi_stream: MultiStream<S>)
        ensures
            multi_stream.streams() == sockets@,
            multi_stream.ticket() == 0,
    {
        MultiStream { sockets, next_socket: RoundRobin::new() }
    }

    /// The socket that the next packet goes to, in turn.
    pub fn get_next_socket(&mut self) -> (socket: &S)
        requires
            old(self).streams().len() > 0,
        ensures
            *socket == old(self).streams()[round_robin_index(
                old(self).ticket() as nat,
                old(self).streams().len(),
            ) as int],
            *socket == old(self).streams()[old(self).ticket() as int
                % old(self).streams().len() as int],
            final(self).streams() == old(self).streams(),
            final(self).ticket() == next_ticket(old(self).ticket()),
            final(self).ticket() == (old(self).ticket() + 1) % (usize::MAX + 1),
    {
        let index: usize = self.next_socket.next_index(self.sockets.len());
        &self.sockets[index]
    }

    /// What a worker of the connection is to do about an event. A datagram goes to
    /// the stream whose turn it is; all workers share the turn.
    pub fn relay_step(&mut self, relay: &mut Relay, event: RelayEvent) -> (action: RelayAction)
        requires
            crate::relay::relay_expects(old(relay)@, event),
            event is UdpReceived ==> old(self).streams().len() > 0,
        ensures
            action == crate::relay::relay_action(
                old(relay)@,
                event,
                round_robin_index(old(self).ticket() as nat, old(self).streams().len()) as usize,
            ),
            final(relay)@ == crate::relay::state_after(action),
            final(self).streams() == old(self).streams(),
            final(self).ticket() == crate::relay::ticket_after_event(old(self).ticket(), event),
            event matches RelayEvent::UdpReceived(size) ==> action == (RelayAction::SendTcp {
                stream: (old(self).ticket() as int % old(self).streams().len() as int) as usize,
                size,
            }) && final(self).ticket() == (old(self).ticket() + 1) % (usize::MAX + 1),
            !(event is UdpReceived) ==> final(self).ticket() == old(self).ticket(),
    {
        relay.step(&mut self.next_socket, self.sockets.len(), event)
    }

    /// All sockets, in the order of their indices.
    pub fn get_all_sockets(&self) -> (sockets: &[S])
        ensures
            sockets@ == self.streams(),
    {
        self.sockets.as_slice()
    }
}

/// The running number after `n` more packets.
pub open spec fn ticket_after(ticket: usize, n: nat) -> usize
    decreases n,
{
    if n == 0 {
        ticket
    } else {
        next_ticket(ticket_after(ticket, (n - 1) as nat))
    }
}

/// How many different running numbers there are.
pub open spec fn ticket_count() -> int {
    usize::MAX + 1
}

/// The counter counts packets, up to the number at which it starts again.
pub proof fn tickets_count_packets(ticket: usize, n: nat)
    ensures
        ticket_after(ticket, n) == (ticket + n) % ticket_count(),
    decreases n,
{
    let m = ticket_count();
    if n == 0 {
        vstd::arithmetic::div_mod::lemma_small_mod(ticket as nat, m as nat);
    } else {
        let before = ticket_after(ticket, (n - 1) as nat) as int;
        tickets_count_packets(ticket, (n - 1) as nat);
        vstd::arithmetic::div_mod::lemma_add_mod_noop(ticket + n - 1, 1, m);
        vstd::arithmetic::div_mod::lemma_small_mod(1, m as nat);
        if before == usize::MAX {
            vstd::arithmetic::div_mod::lemma_mod_self_0(m);
        } else {
            vstd::arithmetic::div_mod::lemma_small_mod((before + 1) as nat, m as nat);
        }
    }
}

/// Which stream takes the packet that comes `n` packets later, where the counter
/// does not start again before, or does so without breaking the turn.
pub proof fn stream_of_later_packet(ticket: usize, n: nat, count: nat)
    requires
        count > 0,
        ticket + n <= usize::MAX || ticket_count() % (count as int) == 0,
    ensures
        round_robin_index(ticket_after(ticket, n) as nat, count) == (ticket + n) % (count as int),
{
    let m = ticket_count();
    let c = count as int;
    tickets_count_packets(ticket, n);
    if ticket + n <= usize::MAX {
        vstd::arithmetic::div_mod::lemma_small_mod((ticket + n) as nat, m as nat);
    } else {
        vstd::arithmetic::div_mod::lemma_fundamental_div_mod(m, c);
        assert(m / c > 0) by (nonlinear_arith)
            requires
                m > 0,
                c > 0,
                m == c * (m / c),
        ;
        vstd::arithmetic::div_mod::lemma_mod_mod(ticket + n, c, m / c);
    }
}

/// Streams take turns: the packet after one goes to the stream after it, and from
/// the last stream back to the first. Only where the counter starts again at 0,
/// and the number of streams does not divide the number of tickets, is the turn
/// broken.
pub proof fn streams_take_turns(ticket: usize, count: nat)
    requires
        count > 0,
        ticket < usize::MAX || ticket_count() % (count as int) == 0,
    ensures
        round_robin_index(next_ticket(ticket) as nat, count) == if round_robin_index(
            ticket as nat,
            count,
        ) + 1 == count {
            0
        } else {
            round_robin_index(ticket as nat, count) + 1
        },
{
    let t = ticket as int;
    let c = count as int;
    reveal_with_fuel(ticket_after, 2);
    stream_of_later_packet(ticket, 1, count);
    vstd::arithmetic::div_mod::lemma_fundamental_div_mod(t, c);
    if t % c + 1 == c {
        assert(c * (t / c + 1) == c * (t / c) + c) by (nonlinear_arith);
        vstd::arithmetic::div_mod::lemma_fundamental_div_mod_converse(t + 1, c, t / c + 1, 0);
    } else {
        assert(t + 1 == t / c * c + (t % c + 1)) by (nonlinear_arith)
            requires
                t == c * (t / c) + t % c,
        ;
        vstd::arithmetic::div_mod::lemma_fundamental_div_mod_converse(t + 1, c, t / c, t % c + 1);
    }
}

/// Round robin is fair: among any `count` packets in a row, each of the `count`
/// streams takes exactly one. Only where the counter starts again at 0 among
/// them, and the number of streams does not divide the number of tickets, does
/// this fail.
pub proof fn round_robin_is_fair(ticket: usize, count: nat, stream: nat)
    requires
        stream < count,
        ticket + count - 1 <= usize::MAX || ticket_count() % (count as int) == 0,
    ensures
        exists|k: nat| #[trigger] round_robin_index(ticket_after(ticket, k) as nat, count) == stream
            && k < count,
        forall|j: nat, k: nat|
            j < count && k < count && #[trigger] round_robin_index(
                ticket_after(ticket, j) as nat,
                count,
            ) == stream && #[trigger] round_robin_index(ticket_after(ticket, k) as nat, count)
                == stream ==> j == k,
{
    let wait = packets_until(ticket, count, stream);
    assert forall|k: nat| k < count implies (#[trigger] round_robin_index(
        ticket_after(ticket, k) as nat,
        count,
    ) == stream <==> k == wait) by {
        lemma_turn_comes(ticket, k, count, stream);
        vstd::arithmetic::div_mod::lemma_small_mod(k, count);
    }
    assert(round_robin_index(ticket_after(ticket, wait as nat) as nat, count) == stream);
}

/// How many of the next `n` packets go to `stream`.
pub open spec fn packets_taken(ticket: usize, n: nat, count: nat, stream: nat) -> nat
    decreases n,
{
    if n == 0 {
        0
    } else {
        packets_taken(ticket, (n - 1) as nat, count, stream) + if round_robin_index(
            ticket_after(ticket, (n - 1) as nat) as nat,
            count,
        ) == stream {
            1nat
        } else {
            0
        }
    }
}

/// Load is balanced over packets in a row, however many: of any two streams
/// neither takes more than one packet more than the other, and each takes the
/// share of one stream, rounded down or one more. Only where the counter starts
/// again at 0 among the packets, and the number of streams does not divide the
/// number of tickets, does this fail.
pub proof fn load_is_balanced(ticket: usize, n: nat, count: nat, a: nat, b: nat)
    requires
        a < count,
        b < count,
        ticket + n - 1 <= usize::MAX || ticket_count() % (count as int) == 0,
    ensures
        packets_taken(ticket, n, count, a) <= packets_taken(ticket, n, count, b) + 1,
        packets_taken(ticket, n, count, b) <= packets_taken(ticket, n, count, a) + 1,
        n / count <= packets_taken(ticket, n, count, a) <= n / count + 1,
{
    lemma_packets_taken(ticket, n, count, a);
    lemma_packets_taken(ticket, n, count, b);
}

/// How many packets go to other streams before one goes to `stream`.
spec fn packets_until(ticket: usize, count: nat, stream: nat) -> int {
    if stream >= ticket as int % count as int {
        stream - ticket as int % count as int
    } else {
        stream - ticket as int % count as int + count
    }
}

/// It is the turn of `stream` after so many packets, and then after each `count`
/// of them.
proof fn lemma_turn_comes(ticket: usize, n: nat, count: nat, stream: nat)
    requires
        stream < count,
        ticket + n <= usize::MAX || ticket_count() % (count as int) == 0,
    ensures
        0 <= packets_until(ticket, count, stream) < count,
        round_robin_index(ticket_after(ticket, n) as nat, count) == stream <==> n % count
            == packets_until(ticket, count, stream),
{
    let t = ticket as int;
    let c = count as int;
    let wait = packets_until(ticket, count, stream);
    vstd::arithmetic::div_mod::lemma_fundamental_div_mod(t, c);
    vstd::arithmetic::div_mod::lemma_mod_bound(t, c);
    vstd::arithmetic::div_mod::lemma_mod_bound(n as int, c);
    vstd::arithmetic::mul::lemma_mul_is_commutative(c, t / c);
    if stream >= t % c {
        vstd::arithmetic::div_mod::lemma_fundamental_div_mod_converse(
            t + wait,
            c,
            t / c,
            stream as int,
        );
    } else {
        assert(c * (t / c + 1) == c * (t / c) + c) by (nonlinear_arith);
        vstd::arithmetic::div_mod::lemma_fundamental_div_mod_converse(
            t + wait,
            c,
            t / c + 1,
            stream as int,
        );
    }
    stream_of_later_packet(ticket, n, count);
    vstd::arithmetic::div_mod::lemma_add_mod_noop_right(t, n as int, c);
    if (t + n) % c == stream {
        lemma_same_remainder(t + n as int % c, t + wait, c);
    }
}

/// A stream takes one packet of each full round, and one more if its turn comes
/// in the round that is not full.
proof fn lemma_packets_taken(ticket: usize, n: nat, count: nat, stream: nat)
    requires
        stream < count,
        ticket + n - 1 <= usize::MAX || ticket_count() % (count as int) == 0,
    ensures
        packets_taken(ticket, n, count, stream) == n / count + if packets_until(
            ticket,
            count,
            stream,
        ) < n % count {
            1int
        } else {
            0
        },
    decreases n,
{
    let c = count as int;
    if n == 0 {
        vstd::arithmetic::div_mod::lemma_small_mod(0, count);
        vstd::arithmetic::div_mod::lemma_div_basics(c);
        vstd::arithmetic::div_mod::lemma_mod_bound(ticket as int, c);
    } else {
        let m = n - 1;
        lemma_packets_taken(ticket, m as nat, count, stream);
        lemma_turn_comes(ticket, m as nat, count, stream);
        vstd::arithmetic::div_mod::lemma_fundamental_div_mod(m, c);
        vstd::arithmetic::div_mod::lemma_mod_bound(m, c);
        if m % c + 1 == c {
            assert(c * (m / c + 1) == c * (m / c) + c) by (nonlinear_arith);
            vstd::arithmetic::div_mod::lemma_fundamental_div_mod_converse(m + 1, c, m / c + 1, 0);
        } else {
            vstd::arithmetic::div_mod::lemma_fundamental_div_mod_converse(
                m + 1,
                c,
                m / c,
                m % c + 1,
            );
        }
    }
}

/// Two numbers that lie less than `count` apart and leave the same remainder are
/// equal.
proof fn lemma_same_remainder(a: int, b: int, count: int)
    requires
        0 < count,
        -count < a - b < count,
        a % count == b % count,
    ensures
        a == b,
{
    vstd::arithmetic::div_mod::lemma_fundamental_div_mod(a, count);
    vstd::arithmetic::div_mod::lemma_fundamental_div_mod(b, count);
    let d = a / count - b / count;
    assert(a - b == count * d) by (nonlinear_arith)
        requires
            d == a / count - b / count,
            a == count * (a / count) + a % count,
            b == count * (b / count) + b % count,
            a % count == b % count,
    ;
    assert(d == 0) by (nonlinear_arith)
        requires
            0 < count,
            -count < count * d < count,
    ;
}

/// The counter counts in words of the machine: the number that follows is one more,
/// and 0 follows the largest. The stream that has its turn is the remainder of the
/// number by the number of streams.
pub proof fn counter_wraps_at_word_size(ticket: usize, count: nat)
    requires
        count > 0,
    ensures
        next_ticket(ticket) == (ticket + 1) % (usize::MAX + 1),
        round_robin_index(ticket as nat, count) == ticket as int % count as int,
        round_robin_index(ticket as nat, count) < count,
{
    reveal_with_fuel(ticket_after, 2);
    tickets_count_packets(ticket, 1);
    stream_of_later_packet(ticket, 0, count);
    vstd::arithmetic::div_mod::lemma_mod_bound(ticket as int, count as int);
}

} // verus!
