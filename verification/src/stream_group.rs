//! The streams that reach the server, grouped by their identifier.

use crate::protocol::MultiStreamInfo;
use crate::stream_id::StreamId;
use std::collections::HashMap;
use vstd::prelude::*;

verus! {

broadcast use vstd::std_specs::hash::group_hash_axioms;

/// The mathematical content of a [`StreamGroup`].
#[verifier::ext_equal]
pub struct GroupView<S, U> {
    pub stream_id: StreamId,
    pub total_streams: u8,
    /// Stream index to socket.
    pub sockets: Map<u8, S>,
    pub udp_sock: U,
}

impl<S, U> GroupView<S, U> {
    /// A group that no stream has joined.
    pub open spec fn empty(stream_id: StreamId, total_streams: u8, udp_sock: U) -> Self {
        GroupView { stream_id, total_streams, sockets: Map::empty(), udp_sock }
    }

    /// The group after a stream has asked to join it. A stream whose index is
    /// taken is left out.
    pub open spec fn with_socket(self, stream_index: u8, socket: S) -> Self {
        if self.sockets.contains_key(stream_index) {
            self
        } else {
            GroupView { sockets: self.sockets.insert(stream_index, socket), ..self }
        }
    }

    /// What the eight-bit counter of joined streams reads.
    pub open spec fn received(self) -> int {
        self.sockets.len() as int % 256
    }

    /// Whether the stream with this index, on joining, makes the group complete:
    /// it is new, and with it the counter reads the number of streams announced.
    pub open spec fn completed_by(self, stream_index: u8) -> bool {
        &&& !self.sockets.contains_key(stream_index)
        &&& (self.sockets.len() + 1) % 256 == self.total_streams
    }
}

/// Whether `out` holds a clone of each value of `map` once, in the order that
/// `order` gives its keys.
pub open spec fn lists_values<S: Clone>(map: Map<u8, S>, order: Seq<u8>, out: Seq<S>) -> bool {
    &&& order.no_duplicates()
    &&& order.to_set() == map.dom()
    &&& out.len() == order.len()
    &&& forall|i: int| 0 <= i < out.len() ==> cloned(map[order[i]], #[trigger] out[i])
}

/// A group of TCP streams that belong to the same logical connection.
///
/// All of them share `udp_sock`, so that the remote UDP server sees one source
/// address. `S` is the handle of a TCP stream, `U` that of the UDP socket.
#[derive(Debug)]
pub struct StreamGroup<S, U> {
    stream_id: StreamId,
    total_streams: u8,
    sockets: HashMap<u8, S>,
    received_count: u8,
    udp_sock: U,
}

impl<S, U> View for StreamGroup<S, U> {
    type V = GroupView<S, U>;

    closed spec fn view(&self) -> GroupView<S, U> {
        GroupView {
            stream_id: self.stream_id,
            total_streams: self.total_streams,
            sockets: self.sockets@,
            udp_sock: self.udp_sock,
        }
    }
}

impl<S, U> StreamGroup<S, U> {
    /// The counter agrees with the streams that are there.
    pub closed spec fn wf(&self) -> bool {
        self.received_count == self@.received()
    }

    /// A group that waits for `total_streams` streams.
    pub fn new(stream_id: StreamId, total_streams: u8, udp_sock: U) -> (group: StreamGroup<S, U>)
        ensures
            group.wf(),
            group@ == GroupView::<S, U>::empty(stream_id, total_streams, udp_sock),
    {
        StreamGroup {
            stream_id,
            total_streams,
            sockets: HashMap::new(),
            received_count: 0,
            udp_sock,
        }
    }

    /// Lets a stream join the group. True if the group is complete with it; false
    /// if more streams are awaited or the index is taken, in which case the
    /// stream does not join.
    pub fn add_socket(&mut self, stream_index: u8, socket: S) -> (complete: bool)
        requires
            old(self).wf(),
        ensures
            final(self).wf(),
            final(self)@ == old(self)@.with_socket(stream_index, socket),
            final(self)@.sockets == if old(self)@.sockets.contains_key(stream_index) {
                old(self)@.sockets
            } else {
                old(self)@.sockets.insert(stream_index, socket)
            },
            final(self)@.stream_id == old(self)@.stream_id,
            final(self)@.total_streams == old(self)@.total_streams,
            final(self)@.udp_sock == old(self)@.udp_sock,
            complete == old(self)@.completed_by(stream_index),
            complete ==> !old(self)@.sockets.contains_key(stream_index),
    {
        if self.sockets.contains_key(&stream_index) {
            return false;
        }
        self.sockets.insert(stream_index, socket);
        self.received_count = self.received_count.wrapping_add(1);
        self.received_count == self.total_streams
    }

    /// A clone of each socket of the group, in no particular order.
    pub fn get_all_sockets(&self) -> (sockets: Vec<S>) where S: Clone
        ensures
            exists|order: Seq<u8>| lists_values(self@.sockets, order, sockets@),
            sockets@.len() == self@.sockets.len(),
    {
        let mut sockets: Vec<S> = Vec::new();
        let ghost mut order: Seq<u8> = seq![];
        for entry in it: self.sockets.iter()
            invariant
                sockets@.len() == it.index(),
                order.len() == it.index(),
                forall|j: int| 0 <= j < it.index() ==> #[trigger] order[j] == *it.seq()[j].0,
                forall|j: int|
                    0 <= j < it.index() ==> cloned(*it.seq()[j].1, #[trigger] sockets@[j]),
        {
            sockets.push(entry.1.clone());
            proof {
                order = order.push(*entry.0);
            }
        }
        proof {
            let seen = vstd::std_specs::iter::IteratorSpec::remaining(&self.sockets.iter());
            assert forall|j: int| 0 <= j < order.len() implies self.sockets@.contains_key(
                #[trigger] order[j],
            ) && self.sockets@[order[j]] == *seen[j].1 by {
            }
            assert forall|k: u8| self.sockets@.contains_key(k) implies order.contains(k) by {
                let pair = (&k, &self.sockets@[k]);
                let j = choose|j: int| 0 <= j < seen.len() && seen[j] == pair;
                assert(order[j] == k);
            }
            assert(order.to_set() =~= self.sockets@.dom());
            assert forall|i: int, j: int|
                0 <= i < order.len() && 0 <= j < order.len() && i != j implies order[i]
                != order[j] by {
                assert(seen[i] != seen[j]);
            }
            order.unique_seq_to_set();
            assert(lists_values(self@.sockets, order, sockets@));
        }
        sockets
    }

    pub fn stream_id(&self) -> (stream_id: StreamId)
        ensures
            stream_id == self@.stream_id,
    {
        self.stream_id
    }

    pub fn total_streams(&self) -> (total_streams: u8)
        ensures
            total_streams == self@.total_streams,
    {
        self.total_streams
    }

    /// How many streams have joined, as the eight-bit counter reads.
    pub fn received_count(&self) -> (count: u8)
        requires
            self.wf(),
        ensures
            count == self@.received(),
            count == self@.sockets.len() as int % 256,
    {
        self.received_count
    }

    pub fn udp_sock(&self) -> (udp_sock: &U)
        ensures
            *udp_sock == self@.udp_sock,
    {
        &self.udp_sock
    }
}

/// The stream groups of a server, by their identifier.
#[derive(Debug)]
pub struct GroupTable<S, U> {
    groups: HashMap<u128, StreamGroup<S, U>>,
}

impl<S, U> View for GroupTable<S, U> {
    type V = Map<StreamId, GroupView<S, U>>;

    closed spec fn view(&self) -> Map<StreamId, GroupView<S, U>> {
        Map::new(
            |id: StreamId| self.groups@.contains_key(id.value),
            |id: StreamId| self.groups@[id.value]@,
        )
    }
}

/// The group that a stream with this identifier joins: the one that is there, or
/// else a new one.
pub open spec fn group_to_join<S, U>(
    groups: Map<StreamId, GroupView<S, U>>,
    stream_id: StreamId,
    total_streams: u8,
    udp_sock: Option<U>,
) -> GroupView<S, U> {
    if groups.contains_key(stream_id) {
        groups[stream_id]
    } else {
        GroupView::empty(stream_id, total_streams, udp_sock->Some_0)
    }
}

impl<S, U> GroupTable<S, U> {
    /// Each group is well formed and stands under its own identifier.
    pub closed spec fn wf(&self) -> bool {
        forall|key: u128| #[trigger]
            self.groups@.contains_key(key) ==> {
                &&& self.groups@[key].wf()
                &&& self.groups@[key]@.stream_id.value == key
            }
    }

    /// A table without groups.
    pub fn new() -> (table: GroupTable<S, U>)
        ensures
            table.wf(),
            table@ == Map::<StreamId, GroupView<S, U>>::empty(),
    {
        let table = GroupTable { groups: HashMap::new() };
        assert(table@ =~= Map::<StreamId, GroupView<S, U>>::empty());
        table
    }

    /// Whether there is a group with this identifier.
    pub fn contains(&self, stream_id: &StreamId) -> (found: bool)
        ensures
            found == self@.contains_key(*stream_id),
    {
        self.groups.contains_key(&stream_id.value)
    }

    /// The group with this identifier.
    pub fn get(&self, stream_id: &StreamId) -> (group: Option<&StreamGroup<S, U>>)
        requires
            self.wf(),
        ensures
            match group {
                Some(g) => g.wf() && self@.contains_key(*stream_id) && g@ == self@[*stream_id],
                None => !self@.contains_key(*stream_id),
            },
    {
        self.groups.get(&stream_id.value)
    }

    /// Lets an announced stream join its group, which is created, with
    /// `udp_sock`, if the stream is the first of it. True if the group is
    /// complete with the stream.
    ///
    /// The first stream decides how many streams the group waits for.
    pub fn join(&mut self, info: &MultiStreamInfo, socket: S, udp_sock: Option<U>) -> (complete:
        bool)
        requires
            old(self).wf(),
            old(self)@.contains_key(info.stream_id) || udp_sock is Some,
        ensures
            final(self).wf(),
            final(self)@ == old(self)@.insert(
                info.stream_id,
                group_to_join(
                    old(self)@,
                    info.stream_id,
                    info.total_streams,
                    udp_sock,
                ).with_socket(info.stream_index, socket),
            ),
            complete == group_to_join(
                old(self)@,
                info.stream_id,
                info.total_streams,
                udp_sock,
            ).completed_by(info.stream_index),
            final(self)@.contains_key(info.stream_id),
            final(self)@[info.stream_id].sockets.contains_key(info.stream_index),
            old(self)@.contains_key(info.stream_id) ==> {
                &&& final(self)@[info.stream_id].total_streams
                    == old(self)@[info.stream_id].total_streams
                &&& final(self)@[info.stream_id].udp_sock == old(self)@[info.stream_id].udp_sock
            },
            !old(self)@.contains_key(info.stream_id) ==> {
                &&& final(self)@[info.stream_id].total_streams == info.total_streams
                &&& Some(final(self)@[info.stream_id].udp_sock) == udp_sock
                &&& final(self)@[info.stream_id].sockets == Map::<u8, S>::empty().insert(
                    info.stream_index,
                    socket,
                )
            },
    {
        let ghost before = self@;
        let mut group = match self.groups.remove(&info.stream_id.value) {
            Some(group) => group,
            None => match udp_sock {
                Some(udp_sock) => StreamGroup::new(info.stream_id, info.total_streams, udp_sock),
                None => {
                    return false;
                },
            },
        };
        let complete = group.add_socket(info.stream_index, socket);
        self.groups.insert(info.stream_id.value, group);
        assert(self@ =~= before.insert(info.stream_id, group@));
        complete
    }

    /// Forgets the group with this identifier.
    pub fn remove(&mut self, stream_id: &StreamId)
        requires
            old(self).wf(),
        ensures
            final(self).wf(),
            final(self)@ == old(self)@.remove(*stream_id),
    {
        let ghost before = self@;
        self.groups.remove(&stream_id.value);
        assert(self@ =~= before.remove(*stream_id));
    }
}

/// A well-formed table groups streams by their identifier: the group that stands
/// under an identifier is the group of that identifier.
pub proof fn groups_stand_under_their_id<S, U>(table: GroupTable<S, U>, stream_id: StreamId)
    requires
        table.wf(),
        table@.contains_key(stream_id),
    ensures
        table@[stream_id].stream_id == stream_id,
{
    assert(table.groups@.contains_key(stream_id.value));
}

/// The group after streams have asked to join it one after the other.
pub open spec fn after_joins<S, U>(group: GroupView<S, U>, joins: Seq<(u8, S)>) -> GroupView<S, U>
    decreases joins.len(),
{
    if joins.len() == 0 {
        group
    } else {
        after_joins(group, joins.drop_last()).with_socket(joins.last().0, joins.last().1)
    }
}

/// How many streams a group waits for. (One byte cannot announce 256 streams: it
/// reads 0 for them.)
pub open spec fn streams_needed(total_streams: u8) -> nat {
    if total_streams == 0 {
        256
    } else {
        total_streams as nat
    }
}

/// Whether the group becomes complete with join number `i`.
pub open spec fn completes_at<S, U>(
    group: GroupView<S, U>,
    joins: Seq<(u8, S)>,
    i: int,
) -> bool {
    0 <= i < joins.len() && after_joins(group, joins.take(i)).completed_by(joins[i].0)
}

/// The different indices among the joins.
pub open spec fn indices<S>(joins: Seq<(u8, S)>) -> Set<u8> {
    Set::new(|k: u8| exists|i: int| 0 <= i < joins.len() && #[trigger] joins[i].0 == k)
}

/// The stream that makes a group complete is the one with which as many streams
/// have joined as the group waits for.
pub proof fn complete_group_has_all_streams<S, U>(group: GroupView<S, U>, index: u8, socket: S)
    ensures
        group.completed_by(index) <==> !group.sockets.contains_key(index) && group.with_socket(
            index,
            socket,
        ).sockets.len() == streams_needed(group.total_streams),
{
    if !group.sockets.contains_key(index) {
        let full = group.sockets.insert(index, socket);
        lemma_at_most_256(group.sockets.dom());
        lemma_at_most_256(full.dom());
        assert(full.dom() =~= group.sockets.dom().insert(index));
    }
}

/// A group becomes complete at most once, whatever streams ask to join it: there
/// are no two points in a series of joins at which it does.
pub proof fn group_completes_once<S, U>(
    group: GroupView<S, U>,
    joins: Seq<(u8, S)>,
    i: int,
    j: int,
)
    requires
        completes_at(group, joins, i),
        completes_at(group, joins, j),
    ensures
        i == j,
{
    if i < j {
        lemma_completes_once_ordered(group, joins, i, j);
    } else if j < i {
        lemma_completes_once_ordered(group, joins, j, i);
    }
}

proof fn lemma_completes_once_ordered<S, U>(
    group: GroupView<S, U>,
    joins: Seq<(u8, S)>,
    i: int,
    j: int,
)
    requires
        i < j,
        completes_at(group, joins, i),
    ensures
        !completes_at(group, joins, j),
{
    if j < joins.len() {
        let before = after_joins(group, joins.take(i));
        let after = after_joins(group, joins.take(i + 1));
        let later = after_joins(group, joins.take(j));
        assert(joins.take(i + 1).drop_last() =~= joins.take(i));
        joins_keep_group(group, joins.take(i));
        lemma_at_most_256(before.sockets.dom());
        assert(after.sockets.dom() =~= before.sockets.dom().insert(joins[i].0));
        lemma_joins_extend(group, joins, i + 1, j);
        joins_keep_group(group, joins.take(j));
        lemma_at_most_256(later.sockets.dom());
        lemma_at_most_256(later.sockets.dom().insert(joins[j].0));
    }
}

/// Joining changes nothing of a group but its streams: all of them share the UDP
/// socket that the group was created with.
pub proof fn joins_keep_group<S, U>(group: GroupView<S, U>, joins: Seq<(u8, S)>)
    ensures
        after_joins(group, joins).stream_id == group.stream_id,
        after_joins(group, joins).total_streams == group.total_streams,
        after_joins(group, joins).udp_sock == group.udp_sock,
    decreases joins.len(),
{
    if joins.len() > 0 {
        joins_keep_group(group, joins.drop_last());
    }
}

/// A new group becomes complete with the stream that brings in the last index
/// that it needs, and with no other: refused streams in between change nothing.
pub proof fn last_needed_stream_completes_group<S, U>(
    stream_id: StreamId,
    total_streams: u8,
    udp_sock: U,
    joins: Seq<(u8, S)>,
    i: int,
)
    requires
        0 <= i < joins.len(),
    ensures
        completes_at(GroupView::<S, U>::empty(stream_id, total_streams, udp_sock), joins, i) <==> {
            &&& !indices(joins.take(i)).contains(joins[i].0)
            &&& indices(joins.take(i)).len() + 1 == streams_needed(total_streams)
        },
{
    let empty = GroupView::<S, U>::empty(stream_id, total_streams, udp_sock);
    joins_keep_group(empty, joins.take(i));
    lemma_joined_indices(empty, joins.take(i));
    let before = indices(joins.take(i));
    lemma_at_most_256(before);
    lemma_at_most_256(before.insert(joins[i].0));
}

/// Exactly one of the streams makes a new group complete if they bring in as many
/// different indices as the group needs, and none does if they bring in fewer,
/// whatever refused streams come in between or afterwards.
pub proof fn group_completes_with_enough_streams<S, U>(
    stream_id: StreamId,
    total_streams: u8,
    udp_sock: U,
    joins: Seq<(u8, S)>,
)
    ensures
        ({
            let group = GroupView::<S, U>::empty(stream_id, total_streams, udp_sock);
            &&& (exists|i: int| completes_at(group, joins, i)) <==> indices(joins).len()
                >= streams_needed(total_streams)
            &&& forall|i: int, j: int| #[trigger]
                completes_at(group, joins, i) && #[trigger] completes_at(group, joins, j) ==> i == j
        }),
{
    let group = GroupView::<S, U>::empty(stream_id, total_streams, udp_sock);
    if indices(joins).len() >= streams_needed(total_streams) {
        lemma_some_stream_completes(stream_id, total_streams, udp_sock, joins);
    }
    assert forall|i: int| completes_at(group, joins, i) implies indices(joins).len()
        >= streams_needed(total_streams) by {
        last_needed_stream_completes_group(stream_id, total_streams, udp_sock, joins, i);
        let before = indices(joins.take(i));
        lemma_at_most_256(before);
        lemma_at_most_256(indices(joins));
        assert forall|k: u8| before.contains(k) implies indices(joins).contains(k) by {
            let m = choose|m: int|
                0 <= m < joins.take(i).len() && #[trigger] joins.take(i)[m].0 == k;
            assert(joins[m].0 == k);
        }
        assert(before.insert(joins[i].0).subset_of(indices(joins)));
        vstd::set_lib::lemma_len_subset(before.insert(joins[i].0), indices(joins));
    }
    assert forall|i: int, j: int| #[trigger]
        completes_at(group, joins, i) && #[trigger] completes_at(group, joins, j) implies i
        == j by {
        group_completes_once(group, joins, i, j);
    }
}

/// Enough different indices make a new group complete.
proof fn lemma_some_stream_completes<S, U>(
    stream_id: StreamId,
    total_streams: u8,
    udp_sock: U,
    joins: Seq<(u8, S)>,
)
    requires
        indices(joins).len() >= streams_needed(total_streams),
    ensures
        exists|i: int|
            completes_at(
                GroupView::<S, U>::empty(stream_id, total_streams, udp_sock),
                joins,
                i,
            ),
    decreases joins.len(),
{
    let group = GroupView::<S, U>::empty(stream_id, total_streams, udp_sock);
    if joins.len() == 0 {
        assert(indices(joins) =~= Set::empty());
    } else {
        let rest = joins.drop_last();
        let last: int = joins.len() - 1;
        if indices(rest).len() >= streams_needed(total_streams) {
            lemma_some_stream_completes(stream_id, total_streams, udp_sock, rest);
            let i = choose|i: int| completes_at(group, rest, i);
            assert(rest.take(i) =~= joins.take(i));
            assert(completes_at(group, joins, i));
        } else {
            lemma_indices_grow(joins);
            lemma_at_most_256(indices(rest));
            if indices(rest).contains(joins.last().0) {
                assert(indices(rest).insert(joins.last().0) =~= indices(rest));
            }
            assert(joins.take(last) =~= rest);
            last_needed_stream_completes_group(stream_id, total_streams, udp_sock, joins, last);
            assert(completes_at(group, joins, last));
        }
    }
}

/// A join adds its index.
proof fn lemma_indices_grow<S>(joins: Seq<(u8, S)>)
    requires
        joins.len() > 0,
    ensures
        indices(joins) == indices(joins.drop_last()).insert(joins.last().0),
{
    let rest = joins.drop_last();
    let grown = indices(rest).insert(joins.last().0);
    assert forall|k: u8| grown.contains(k) implies indices(joins).contains(k) by {
        if k == joins.last().0 {
            assert(joins[joins.len() - 1].0 == k);
        } else {
            let i = choose|i: int| 0 <= i < rest.len() && #[trigger] rest[i].0 == k;
            assert(joins[i].0 == k);
        }
    }
    assert forall|k: u8| indices(joins).contains(k) implies grown.contains(k) by {
        let i = choose|i: int| 0 <= i < joins.len() && #[trigger] joins[i].0 == k;
        if i < rest.len() {
            assert(rest[i].0 == k);
        }
    }
    assert(indices(joins) =~= grown);
}

/// The indices in a group are those that asked to join.
proof fn lemma_joined_indices<S, U>(group: GroupView<S, U>, joins: Seq<(u8, S)>)
    requires
        group.sockets == Map::<u8, S>::empty(),
    ensures
        after_joins(group, joins).sockets.dom() == indices(joins),
    decreases joins.len(),
{
    if joins.len() == 0 {
        assert(indices(joins) =~= Set::empty());
    } else {
        lemma_joined_indices(group, joins.drop_last());
        lemma_indices_grow(joins);
    }
    assert(after_joins(group, joins).sockets.dom() =~= indices(joins));
}

/// As many streams with different indices as a new group waits for make it
/// complete, in whatever order they come, and the last of them is the one that
/// does.
pub proof fn distinct_streams_complete_group<S, U>(
    stream_id: StreamId,
    total_streams: u8,
    udp_sock: U,
    joins: Seq<(u8, S)>,
)
    requires
        joins.len() == streams_needed(total_streams),
        forall|i: int, j: int|
            0 <= i < joins.len() && 0 <= j < joins.len() && i != j ==> joins[i].0 != joins[j].0,
    ensures
        after_joins(
            GroupView::<S, U>::empty(stream_id, total_streams, udp_sock),
            joins.drop_last(),
        ).completed_by(joins.last().0),
{
    let last: int = joins.len() - 1;
    assert(joins.take(last) =~= joins.drop_last());
    lemma_distinct_indices(joins.drop_last());
    if indices(joins.drop_last()).contains(joins.last().0) {
        let i = choose|i: int|
            0 <= i < last && #[trigger] joins.drop_last()[i].0 == joins.last().0;
        assert(joins[i].0 == joins[last].0);
    }
    last_needed_stream_completes_group(stream_id, total_streams, udp_sock, joins, last);
}

/// Joins whose indices all differ have as many indices as there are joins.
proof fn lemma_distinct_indices<S>(joins: Seq<(u8, S)>)
    requires
        forall|i: int, j: int|
            0 <= i < joins.len() && 0 <= j < joins.len() && i != j ==> joins[i].0 != joins[j].0,
    ensures
        indices(joins).len() == joins.len(),
    decreases joins.len(),
{
    if joins.len() == 0 {
        assert(indices(joins) =~= Set::empty());
    } else {
        let rest = joins.drop_last();
        lemma_distinct_indices(rest);
        lemma_indices_grow(joins);
        lemma_at_most_256(indices(rest));
        if indices(rest).contains(joins.last().0) {
            let i = choose|i: int| 0 <= i < rest.len() && #[trigger] rest[i].0 == joins.last().0;
            assert(joins[i].0 == joins[joins.len() - 1].0);
        }
    }
}

/// A stream that reaches the server, with the UDP socket that is there for its
/// group in case it is the first of it.
pub struct Arrival<S, U> {
    pub stream_id: StreamId,
    pub stream_index: u8,
    pub total_streams: u8,
    pub socket: S,
    pub udp_sock: Option<U>,
}

/// The groups after streams have arrived one after the other.
pub open spec fn after_arrivals<S, U>(
    groups: Map<StreamId, GroupView<S, U>>,
    arrivals: Seq<Arrival<S, U>>,
) -> Map<StreamId, GroupView<S, U>>
    decreases arrivals.len(),
{
    if arrivals.len() == 0 {
        groups
    } else {
        let before = after_arrivals(groups, arrivals.drop_last());
        let a = arrivals.last();
        before.insert(
            a.stream_id,
            group_to_join(before, a.stream_id, a.total_streams, a.udp_sock).with_socket(
                a.stream_index,
                a.socket,
            ),
        )
    }
}

/// The arrivals of the streams of one group.
pub open spec fn arrivals_of<S, U>(
    arrivals: Seq<Arrival<S, U>>,
    stream_id: StreamId,
) -> Seq<Arrival<S, U>> {
    arrivals.filter(|a: Arrival<S, U>| a.stream_id == stream_id)
}

/// Arrivals as joins of a group.
pub open spec fn as_joins<S, U>(arrivals: Seq<Arrival<S, U>>) -> Seq<(u8, S)> {
    arrivals.map_values(|a: Arrival<S, U>| (a.stream_index, a.socket))
}

/// Streams are grouped by their identifier: however the streams of several groups
/// arrive in between each other, each group is made of its own streams alone, in
/// the order of their arrival, and the first of them decides on the number of
/// streams and the UDP socket.
pub proof fn streams_are_grouped_by_id<S, U>(
    arrivals: Seq<Arrival<S, U>>,
    stream_id: StreamId,
)
    ensures
        ({
            let groups = after_arrivals(Map::<StreamId, GroupView<S, U>>::empty(), arrivals);
            let own = arrivals_of(arrivals, stream_id);
            &&& groups.contains_key(stream_id) <==> own.len() > 0
            &&& own.len() > 0 ==> groups[stream_id] == after_joins(
                GroupView::<S, U>::empty(
                    stream_id,
                    own[0].total_streams,
                    own[0].udp_sock->Some_0,
                ),
                as_joins(own),
            )
        }),
    decreases arrivals.len(),
{
    reveal(Seq::filter);
    if arrivals.len() > 0 {
        streams_are_grouped_by_id(arrivals.drop_last(), stream_id);
        let before = arrivals_of(arrivals.drop_last(), stream_id);
        let own = arrivals_of(arrivals, stream_id);
        if arrivals.last().stream_id == stream_id {
            let first = GroupView::<S, U>::empty(
                stream_id,
                own[0].total_streams,
                own[0].udp_sock->Some_0,
            );
            assert(as_joins(own).drop_last() =~= as_joins(before));
            assert(after_joins(first, as_joins(own)) == after_joins(
                first,
                as_joins(before),
            ).with_socket(own.last().stream_index, own.last().socket));
        }
    }
}

/// Streams that have joined stay.
proof fn lemma_joins_extend<S, U>(
    group: GroupView<S, U>,
    joins: Seq<(u8, S)>,
    i: int,
    j: int,
)
    requires
        0 <= i <= j <= joins.len(),
    ensures
        after_joins(group, joins.take(i)).sockets.len() <= after_joins(
            group,
            joins.take(j),
        ).sockets.len(),
    decreases j - i,
{
    if i < j {
        lemma_joins_extend(group, joins, i, j - 1);
        let before = after_joins(group, joins.take(j - 1));
        lemma_at_most_256(before.sockets.dom());
        assert(joins.take(j).drop_last() =~= joins.take(j - 1));
        assert(before.sockets.insert(joins[j - 1].0, joins[j - 1].1).dom()
            =~= before.sockets.dom().insert(joins[j - 1].0));
    }
}

/// The numbers of one byte that lie below `n`.
spec fn bytes_below(n: int) -> Set<u8> {
    Set::new(|b: u8| b < n)
}

proof fn lemma_bytes_below(n: int)
    requires
        0 <= n <= 256,
    ensures
        bytes_below(n).finite(),
        bytes_below(n).len() == n,
    decreases n,
{
    if n == 0 {
        assert(bytes_below(0) =~= Set::empty());
    } else {
        lemma_bytes_below(n - 1);
        assert(bytes_below(n) =~= bytes_below(n - 1).insert((n - 1) as u8));
    }
}

/// There are 256 bytes.
proof fn lemma_at_most_256(bytes: Set<u8>)
    ensures
        bytes.finite(),
        bytes.len() <= 256,
{
    lemma_bytes_below(256);
    assert(bytes.subset_of(bytes_below(256)));
    vstd::set_lib::lemma_len_subset(bytes, bytes_below(256));
}

/// A group starts without streams, and with what it was given.
pub proof fn group_starts_empty<S, U>(stream_id: StreamId, total_streams: u8, udp_sock: U)
    ensures
        ({
            let group = GroupView::<S, U>::empty(stream_id, total_streams, udp_sock);
            &&& group.stream_id == stream_id
            &&& group.total_streams == total_streams
            &&& group.udp_sock == udp_sock
            &&& forall|k: u8| !(#[trigger] group.sockets.contains_key(k))
        }),
{
}

/// A stream joins under its index unless that is taken, in which case the stream
/// that is there stays; the other streams of the group stay as they are.
pub proof fn stream_joins_unless_its_index_is_taken<S, U>(
    group: GroupView<S, U>,
    index: u8,
    socket: S,
    other: u8,
)
    ensures
        ({
            let after = group.with_socket(index, socket).sockets;
            &&& after.contains_key(index)
            &&& after[index] == if group.sockets.contains_key(index) {
                group.sockets[index]
            } else {
                socket
            }
            &&& other != index ==> (after.contains_key(other) <==> group.sockets.contains_key(other))
            &&& other != index && group.sockets.contains_key(other) ==> after[other]
                == group.sockets[other]
        }),
        group.with_socket(index, socket).stream_id == group.stream_id,
        group.with_socket(index, socket).total_streams == group.total_streams,
        group.with_socket(index, socket).udp_sock == group.udp_sock,
{
}

/// A group waits for as many streams as were announced, and a stream makes it
/// complete exactly if its index is new and one stream was missing. The number 0
/// stands for 256, and the counter of streams reads it likewise.
pub proof fn group_waits_for_the_announced_number<S, U>(group: GroupView<S, U>, index: u8)
    ensures
        streams_needed(group.total_streams) == if group.total_streams == 0 {
            256int
        } else {
            group.total_streams as int
        },
        group.completed_by(index) <==> !group.sockets.contains_key(index) && group.sockets.len() + 1
            == if group.total_streams == 0 {
            256int
        } else {
            group.total_streams as int
        },
        group.received() == group.sockets.len() as int % 256,
{
    let full = group.sockets.dom().insert(index);
    lemma_at_most_256(group.sockets.dom());
    lemma_at_most_256(full);
}

/// A list of the values has a clone of each, and nothing but clones of different
/// ones.
pub proof fn list_has_each_value_once<S: Clone>(map: Map<u8, S>, order: Seq<u8>, out: Seq<S>)
    requires
        lists_values(map, order, out),
    ensures
        out.len() == map.len(),
        order.len() == out.len(),
        forall|k: u8| #[trigger]
            map.contains_key(k) ==> exists|i: int|
                0 <= i < out.len() && order[i] == k && cloned(map[k], #[trigger] out[i]),
        forall|i: int|
            0 <= i < out.len() ==> map.contains_key(order[i]) && cloned(
                map[order[i]],
                #[trigger] out[i],
            ),
        forall|i: int, j: int|
            0 <= i < j < out.len() ==> #[trigger] order[i] != #[trigger] order[j],
{
    order.unique_seq_to_set();
    assert forall|k: u8| #[trigger] map.contains_key(k) implies exists|i: int|
        0 <= i < out.len() && order[i] == k && cloned(map[k], #[trigger] out[i]) by {
        assert(order.to_set().contains(k));
        let i = choose|i: int| 0 <= i < order.len() && order[i] == k;
        assert(cloned(map[order[i]], out[i]));
    }
    assert forall|i: int| 0 <= i < out.len() implies map.contains_key(order[i]) && cloned(
        map[order[i]],
        #[trigger] out[i],
    ) by {
        assert(order.to_set().contains(order[i]));
    }
}

/// A stream joins the group of its identifier, as it is, if there is one, and else
/// one without streams, which takes the number and the UDP socket that come with
/// the stream.
pub proof fn first_stream_founds_its_group<S, U>(
    groups: Map<StreamId, GroupView<S, U>>,
    stream_id: StreamId,
    total_streams: u8,
    udp_sock: U,
)
    ensures
        ({
            let group = group_to_join(groups, stream_id, total_streams, Some(udp_sock));
            &&& groups.contains_key(stream_id) ==> group == groups[stream_id]
            &&& !groups.contains_key(stream_id) ==> {
                &&& group.stream_id == stream_id
                &&& group.total_streams == total_streams
                &&& group.udp_sock == udp_sock
                &&& forall|k: u8| !(#[trigger] group.sockets.contains_key(k))
            }
        }),
{
}

} // verus!
