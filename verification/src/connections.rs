//! The UDP clients that are being served.

use crate::addr::SocketAddress;
use vstd::prelude::*;

verus! {

/// The connection of each UDP client, by the client's address.
#[derive(Debug)]
pub struct ConnectionTable<C> {
    entries: Vec<(SocketAddress, C)>,
}

/// What to do with a datagram from a client.
#[derive(Debug)]
pub enum Route<'a, C> {
    /// Send it on the client's connection, to the stream whose turn it is.
    Forward(&'a C),
    /// Open a connection for the client, and send it on that.
    Dial,
}

impl<C> ConnectionTable<C> {
    /// The place of the client in the table.
    spec fn place(&self, client: SocketAddress) -> int {
        choose|i: int| 0 <= i < self.entries@.len() && #[trigger] self.entries@[i].0 == client
    }

    /// Whether the client is in the table.
    spec fn listed(&self, client: SocketAddress) -> bool {
        exists|i: int| 0 <= i < self.entries@.len() && #[trigger] self.entries@[i].0 == client
    }

    /// No client is listed twice.
    pub closed spec fn wf(&self) -> bool {
        forall|i: int, j: int|
            0 <= i < self.entries@.len() && 0 <= j < self.entries@.len() && i != j
                ==> #[trigger] self.entries@[i].0 != #[trigger] self.entries@[j].0
    }
}

impl<C> View for ConnectionTable<C> {
    type V = Map<SocketAddress, C>;

    closed spec fn view(&self) -> Map<SocketAddress, C> {
        Map::new(
            |client: SocketAddress| self.listed(client),
            |client: SocketAddress| self.entries@[self.place(client)].1,
        )
    }
}

impl<C> ConnectionTable<C> {
    /// A table without clients.
    pub fn new() -> (table: ConnectionTable<C>)
        ensures
            table.wf(),
            table@ == Map::<SocketAddress, C>::empty(),
    {
        let table = ConnectionTable { entries: Vec::new() };
        assert(table@ =~= Map::<SocketAddress, C>::empty());
        table
    }

    /// Each entry is what its client maps to.
    proof fn lemma_entry(&self, i: int)
        requires
            self.wf(),
            0 <= i < self.entries@.len(),
        ensures
            self@.contains_key(self.entries@[i].0),
            self@[self.entries@[i].0] == self.entries@[i].1,
    {
    }

    /// The place of the client in the table.
    fn find(&self, client: &SocketAddress) -> (place: Option<usize>)
        requires
            self.wf(),
        ensures
            match place {
                Some(i) => i < self.entries@.len() && self.entries@[i as int].0 == *client
                    && self@.contains_key(*client) && self@[*client] == self.entries@[i as int].1,
                None => !self@.contains_key(*client),
            },
    {
        let mut i: usize = 0;
        while i < self.entries.len()
            invariant
                self.wf(),
                i <= self.entries@.len(),
                forall|j: int| 0 <= j < i ==> #[trigger] self.entries@[j].0 != *client,
            decreases self.entries.len() - i,
        {
            if self.entries[i].0 == *client {
                proof {
                    self.lemma_entry(i as int);
                }
                return Some(i);
            }
            i = i + 1;
        }
        None
    }

    /// The client's connection, if it has one.
    pub fn get(&self, client: &SocketAddress) -> (connection: Option<&C>)
        requires
            self.wf(),
        ensures
            match connection {
                Some(c) => self@.contains_key(*client) && *c == self@[*client],
                None => !self@.contains_key(*client),
            },
    {
        match self.find(client) {
            Some(i) => Some(&self.entries[i].1),
            None => None,
        }
    }

    /// What to do with a datagram from the client: a client with a connection is
    /// served on it, and any other is a new one.
    pub fn route(&self, client: &SocketAddress) -> (route: Route<'_, C>)
        requires
            self.wf(),
        ensures
            match route {
                Route::Forward(c) => self@.contains_key(*client) && *c == self@[*client],
                Route::Dial => !self@.contains_key(*client),
            },
    {
        match self.get(client) {
            Some(connection) => Route::Forward(connection),
            None => Route::Dial,
        }
    }

    /// Enters the connection of a client that has none.
    pub fn insert(&mut self, client: SocketAddress, connection: C)
        requires
            old(self).wf(),
            !old(self)@.contains_key(client),
        ensures
            final(self).wf(),
            final(self)@ == old(self)@.insert(client, connection),
    {
        let ghost before = *self;
        self.entries.push((client, connection));
        proof {
            let n = before.entries@.len() as int;
            assert forall|i: int| 0 <= i < n implies #[trigger] self.entries@[i].0 != client by {
                before.lemma_entry(i);
            }
            self.lemma_entry(n);
            assert forall|c: SocketAddress| #[trigger]
                before@.contains_key(c) implies self@.contains_key(c) && self@[c] == before@[c] by {
                before.lemma_entry(before.place(c));
                self.lemma_entry(before.place(c));
            }
            assert forall|c: SocketAddress| #[trigger] self@.contains_key(c) && c
                != client implies before@.contains_key(c) by {
                before.lemma_entry(self.place(c));
            }
            assert(self@ =~= before@.insert(client, connection));
        }
    }

    /// Forgets the client, if it is there.
    pub fn remove(&mut self, client: &SocketAddress)
        requires
            old(self).wf(),
        ensures
            final(self).wf(),
            final(self)@ == old(self)@.remove(*client),
    {
        let ghost before = *self;
        match self.find(client) {
            Some(i) => {
                self.entries.swap_remove(i);
                proof {
                    let n = before.entries@.len() as int;
                    // Where the entry at place `j` of the table stood before.
                    let source = |j: int| if j == i { n - 1 } else { j };
                    assert forall|j: int| 0 <= j < n - 1 implies #[trigger] self.entries@[j]
                        == before.entries@[source(j)] by {}
                    assert forall|c: SocketAddress| #[trigger]
                        before@.contains_key(c) && c != *client implies self@.contains_key(c)
                        && self@[c] == before@[c] by {
                        let k = before.place(c);
                        before.lemma_entry(k);
                        self.lemma_entry(
                            if k == n - 1 {
                                i as int
                            } else {
                                k
                            },
                        );
                    }
                    assert forall|c: SocketAddress| #[trigger]
                        self@.contains_key(c) implies before@.contains_key(c) && c != *client by {
                        let j = self.place(c);
                        before.lemma_entry(source(j));
                        assert(before.entries@[source(j)].0 != before.entries@[i as int].0);
                    }
                    assert(self@ =~= before@.remove(*client));
                }
            },
            None => {
                assert(self@ =~= before@.remove(*client));
            },
        }
    }
}

} // verus!
