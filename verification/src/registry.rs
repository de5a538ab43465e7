//! The registry of connections: which connection exists under which
//! identifier, and to which account each is bound.

use tokio::sync::mpsc::UnboundedSender;
use tokio::task::JoinHandle;
use tokio_xmpp::Packet;
use vstd::prelude::*;

verus! {

/// One connection of the registry: the account it is bound to, and the
/// handles of its queue and of its two pollers.
pub struct ConnectionClient {
    pub(crate) id: String,
    pub(crate) jid: String,
    pub(crate) sender: UnboundedSender<Packet>,
    pub(crate) read_handle: JoinHandle<()>,
    pub(crate) write_handle: JoinHandle<()>,
}

/// The connections that exist, each under its identifier.
pub struct ConnectionClientState {
    connections: Vec<ConnectionClient>,
}

/// Whether some connection of `connections` is bound to the bare JID `jid`.
pub open spec fn bound(connections: Map<Seq<char>, Seq<char>>, jid: Seq<char>) -> bool {
    exists|id: Seq<char>| connections.dom().contains(id) && #[trigger] connections[id] == jid
}

/// Whether no two identifiers of `connections` are bound to one bare JID.
pub open spec fn one_connection_per_jid(connections: Map<Seq<char>, Seq<char>>) -> bool {
    forall|a: Seq<char>, b: Seq<char>|
        connections.dom().contains(a) && connections.dom().contains(b) && #[trigger] connections[a]
            == #[trigger] connections[b] ==> a == b
}

/// Whether one of `entries` is known under `id`.
spec fn holds(entries: Seq<ConnectionClient>, id: Seq<char>) -> bool {
    exists|i: int| 0 <= i < entries.len() && #[trigger] entries[i].id@ == id
}

/// Where among `entries` the one known under `id` stands.
spec fn index_of(entries: Seq<ConnectionClient>, id: Seq<char>) -> int {
    choose|i: int| 0 <= i < entries.len() && #[trigger] entries[i].id@ == id
}

/// Whether no two of `entries` share an identifier or an account.
spec fn distinct(entries: Seq<ConnectionClient>) -> bool {
    forall|i: int, j: int|
        0 <= i < j < entries.len() ==> #[trigger] entries[i].id@ != #[trigger] entries[j].id@
            && entries[i].jid@ != entries[j].jid@
}

/// The bare JID that each identifier of `entries` is bound to.
spec fn as_map(entries: Seq<ConnectionClient>) -> Map<Seq<char>, Seq<char>> {
    Map::new(
        |id: Seq<char>| holds(entries, id),
        |id: Seq<char>| entries[index_of(entries, id)].jid@,
    )
}

/// Each entry stands in the map under its identifier, with its account.
proof fn lemma_as_map_at(entries: Seq<ConnectionClient>, i: int)
    requires
        distinct(entries),
        0 <= i < entries.len(),
    ensures
        as_map(entries).dom().contains(entries[i].id@),
        as_map(entries)[entries[i].id@] == entries[i].jid@,
        index_of(entries, entries[i].id@) == i,
{
    let id = entries[i].id@;
    assert(holds(entries, id));
    let j = index_of(entries, id);
    assert(0 <= j < entries.len() && entries[j].id@ == id);
    if j < i {
        assert(entries[j].id@ != entries[i].id@);
    } else if i < j {
        assert(entries[i].id@ != entries[j].id@);
    }
}

/// One more entry, new by its identifier and by its account, is one more
/// binding of the map.
proof fn lemma_as_map_push(entries: Seq<ConnectionClient>, entry: ConnectionClient)
    requires
        distinct(entries),
        !as_map(entries).dom().contains(entry.id@),
        !bound(as_map(entries), entry.jid@),
    ensures
        distinct(entries.push(entry)),
        as_map(entries.push(entry)) == as_map(entries).insert(entry.id@, entry.jid@),
{
    let more = entries.push(entry);
    assert forall|i: int, j: int| 0 <= i < j < more.len() implies #[trigger] more[i].id@
        != #[trigger] more[j].id@ && more[i].jid@ != more[j].jid@ by {
        if j == entries.len() {
            lemma_as_map_at(entries, i);
            assert(as_map(entries)[entries[i].id@] == entries[i].jid@);
        } else {
            assert(entries[i].id@ != entries[j].id@);
        }
    }
    assert forall|id: Seq<char>| as_map(more).dom().contains(id) <==> as_map(entries).insert(
        entry.id@,
        entry.jid@,
    ).dom().contains(id) by {
        if holds(more, id) {
            let i = index_of(more, id);
            if i < entries.len() {
                assert(entries[i].id@ == id);
            }
        }
        if holds(entries, id) {
            let i = index_of(entries, id);
            assert(more[i].id@ == id);
        }
        if id == entry.id@ {
            assert(more[entries.len() as int].id@ == id);
        }
    }
    assert forall|id: Seq<char>| as_map(more).dom().contains(id) implies as_map(more)[id]
        == as_map(entries).insert(entry.id@, entry.jid@)[id] by {
        let i = index_of(more, id);
        lemma_as_map_at(more, i);
        if i < entries.len() {
            lemma_as_map_at(entries, i);
        }
    }
    assert(as_map(more) =~= as_map(entries).insert(entry.id@, entry.jid@));
}

/// One entry less is one binding less of the map.
proof fn lemma_as_map_remove(entries: Seq<ConnectionClient>, at: int)
    requires
        distinct(entries),
        0 <= at < entries.len(),
    ensures
        distinct(entries.remove(at)),
        as_map(entries.remove(at)) == as_map(entries).remove(entries[at].id@),
{
    let fewer = entries.remove(at);
    let gone = entries[at].id@;
    assert forall|i: int, j: int| 0 <= i < j < fewer.len() implies #[trigger] fewer[i].id@
        != #[trigger] fewer[j].id@ && fewer[i].jid@ != fewer[j].jid@ by {
        let a = if i < at { i } else { i + 1 };
        let b = if j < at { j } else { j + 1 };
        assert(entries[a].id@ != entries[b].id@);
    }
    assert forall|id: Seq<char>| as_map(fewer).dom().contains(id) <==> as_map(entries).remove(
        gone,
    ).dom().contains(id) by {
        if holds(fewer, id) {
            let i = index_of(fewer, id);
            let a = if i < at { i } else { i + 1 };
            assert(entries[a].id@ == id);
            if a < at {
                assert(entries[a].id@ != entries[at].id@);
            } else {
                assert(entries[at].id@ != entries[a].id@);
            }
        }
        if holds(entries, id) && id != gone {
            let a = index_of(entries, id);
            let i = if a < at { a } else { a - 1 };
            assert(fewer[i].id@ == id);
        }
    }
    assert forall|id: Seq<char>| as_map(fewer).dom().contains(id) implies as_map(fewer)[id]
        == as_map(entries).remove(gone)[id] by {
        let i = index_of(fewer, id);
        lemma_as_map_at(fewer, i);
        let a = if i < at { i } else { i + 1 };
        lemma_as_map_at(entries, a);
    }
    assert(as_map(fewer) =~= as_map(entries).remove(gone));
}

/// The map of distinct entries has as many identifiers as there are
/// entries, and binds each account once.
proof fn lemma_as_map_unique(entries: Seq<ConnectionClient>)
    requires
        distinct(entries),
    ensures
        one_connection_per_jid(as_map(entries)),
        as_map(entries).dom().finite(),
        as_map(entries).dom().len() == entries.len(),
    decreases entries.len(),
{
    let connections = as_map(entries);
    assert forall|a: Seq<char>, b: Seq<char>|
        connections.dom().contains(a) && connections.dom().contains(b) && #[trigger] connections[a]
            == #[trigger] connections[b] implies a == b by {
        let i = index_of(entries, a);
        let j = index_of(entries, b);
        lemma_as_map_at(entries, i);
        lemma_as_map_at(entries, j);
        if i < j {
            assert(entries[i].jid@ != entries[j].jid@);
        } else if j < i {
            assert(entries[j].jid@ != entries[i].jid@);
        }
    }
    if entries.len() == 0 {
        assert(connections.dom() =~= Set::<Seq<char>>::empty());
    } else {
        let last = entries.len() - 1;
        let fewer = entries.remove(last);
        lemma_as_map_remove(entries, last);
        lemma_as_map_unique(fewer);
        lemma_as_map_at(entries, last);
        assert(connections.dom() =~= as_map(fewer).dom().insert(entries[last].id@));
    }
}

impl ConnectionClient {
    /// A connection under `id`, bound to the account whose bare JID is
    /// `jid`, with the sending half of its queue and the tasks of its
    /// pollers.
    pub(crate) fn new(
        id: &str,
        jid: String,
        sender: UnboundedSender<Packet>,
        read_handle: JoinHandle<()>,
        write_handle: JoinHandle<()>,
    ) -> (connection: ConnectionClient)
        ensures
            connection.spec_id() == id@,
            connection.spec_jid() == jid@,
    {
        ConnectionClient { id: id.to_owned(), jid, sender, read_handle, write_handle }
    }

    /// The identifier that the connection is known under.
    pub closed spec fn spec_id(&self) -> Seq<char> {
        self.id@
    }

    /// The bare JID of the account that the connection is bound to.
    pub closed spec fn spec_jid(&self) -> Seq<char> {
        self.jid@
    }
}

impl View for ConnectionClientState {
    type V = Map<Seq<char>, Seq<char>>;

    /// The bare JID that each identifier is bound to.
    closed spec fn view(&self) -> Map<Seq<char>, Seq<char>> {
        as_map(self.connections@)
    }
}

impl ConnectionClientState {
    #[verifier::type_invariant]
    spec fn well_formed(&self) -> bool {
        distinct(self.connections@)
    }

    /// How many connections the registry holds.
    pub closed spec fn spec_len(&self) -> nat {
        self.connections@.len()
    }

    /// Whether no two connections share an identifier, and no two an
    /// account: the registry holds as many connections as identifiers, and
    /// each bare JID under one identifier at most.
    pub open spec fn unique(&self) -> bool {
        &&& self@.dom().finite()
        &&& self@.dom().len() == self.spec_len()
        &&& one_connection_per_jid(self@)
    }

    /// A registry without connections.
    pub fn new() -> (state: ConnectionClientState)
        ensures
            state@ == Map::<Seq<char>, Seq<char>>::empty(),
            state.spec_len() == 0,
            state.unique(),
    {
        let state = ConnectionClientState { connections: Vec::new() };
        assert(state@ =~= Map::<Seq<char>, Seq<char>>::empty());
        proof {
            lemma_as_map_unique(state.connections@);
        }
        state
    }

    /// The number of connections.
    pub fn len(&self) -> (n: usize)
        ensures
            n == self.spec_len(),
            n == self@.dom().len(),
            self.unique(),
    {
        proof {
            use_type_invariant(self);
            lemma_as_map_unique(self.connections@);
        }
        self.connections.len()
    }

    /// Whether a connection exists under `id`.
    pub fn contains(&self, id: &str) -> (found: bool)
        ensures
            found == self@.dom().contains(id@),
    {
        match self.find(id) {
            Some(at) => {
                proof {
                    use_type_invariant(self);
                    lemma_as_map_at(self.connections@, at as int);
                }
                true
            },
            None => false,
        }
    }

    /// The connection under `id`, if there is one.
    pub fn get(&self, id: &str) -> (connection: Option<&ConnectionClient>)
        ensures
            match connection {
                Some(client) => self@.dom().contains(id@) && client.spec_id() == id@
                    && client.spec_jid() == self@[id@],
                None => !self@.dom().contains(id@),
            },
    {
        match self.find(id) {
            Some(at) => {
                proof {
                    use_type_invariant(self);
                    lemma_as_map_at(self.connections@, at as int);
                }
                Some(&self.connections[at])
            },
            None => None,
        }
    }

    /// The bare JID of the account that the connection is bound to.
    pub fn jid_of(&self, id: &str) -> (jid: Option<&str>)
        ensures
            match jid {
                Some(text) => self@.dom().contains(id@) && self@[id@] == text@,
                None => !self@.dom().contains(id@),
            },
    {
        match self.get(id) {
            Some(connection) => Some(connection.jid.as_str()),
            None => None,
        }
    }

    /// Whether some connection is bound to the bare JID `jid`.
    pub fn is_bound(&self, jid: &str) -> (found: bool)
        ensures
            found == bound(self@, jid@),
    {
        proof {
            use_type_invariant(self);
        }
        let key = jid.to_owned();
        let mut i: usize = 0;
        while i < self.connections.len()
            invariant
                i <= self.connections@.len(),
                key@ == jid@,
                distinct(self.connections@),
                forall|k: int| 0 <= k < i ==> self.connections@[k].jid@ != jid@,
            decreases self.connections@.len() - i,
        {
            if self.connections[i].jid == key {
                proof {
                    lemma_as_map_at(self.connections@, i as int);
                }
                return true;
            }
            i += 1;
        }
        proof {
            if bound(self@, jid@) {
                let id = choose|id: Seq<char>|
                    self@.dom().contains(id) && #[trigger] self@[id] == jid@;
                let k = index_of(self.connections@, id);
                assert(self.connections@[k].jid@ != jid@);
            }
        }
        false
    }

    /// Tells nothing new of the registry: a caller that leaves it as it is
    /// learns here that it is unique, as every registry is.
    pub(crate) fn uniqueness(&self)
        ensures
            self.unique(),
    {
        proof {
            use_type_invariant(self);
            lemma_as_map_unique(self.connections@);
        }
    }

    /// Adds a connection under an identifier and to an account that the
    /// registry does not hold yet.
    pub(crate) fn insert(&mut self, connection: ConnectionClient)
        requires
            !old(self)@.dom().contains(connection.spec_id()),
            !bound(old(self)@, connection.spec_jid()),
        ensures
            final(self)@ == old(self)@.insert(connection.spec_id(), connection.spec_jid()),
            final(self).spec_len() == old(self).spec_len() + 1,
            final(self).unique(),
    {
        proof {
            use_type_invariant(&*self);
            lemma_as_map_push(self.connections@, connection);
            lemma_as_map_unique(self.connections@.push(connection));
        }
        let mut connections: Vec<ConnectionClient> = Vec::new();
        core::mem::swap(&mut self.connections, &mut connections);
        connections.push(connection);
        core::mem::swap(&mut self.connections, &mut connections);
    }

    /// Takes the connection under `id` out of the registry, if there is one.
    pub(crate) fn remove(&mut self, id: &str) -> (connection: Option<ConnectionClient>)
        ensures
            final(self)@ == old(self)@.remove(id@),
            connection is Some <==> old(self)@.dom().contains(id@),
            connection is Some ==> final(self).spec_len() + 1 == old(self).spec_len(),
            connection is None ==> final(self)@ == old(self)@ && final(self).spec_len() == old(
                self,
            ).spec_len(),
            final(self).unique(),
    {
        proof {
            use_type_invariant(&*self);
            lemma_as_map_unique(self.connections@);
        }
        match self.find(id) {
            Some(at) => {
                proof {
                    lemma_as_map_at(self.connections@, at as int);
                    lemma_as_map_remove(self.connections@, at as int);
                    lemma_as_map_unique(self.connections@.remove(at as int));
                }
                let mut connections: Vec<ConnectionClient> = Vec::new();
                core::mem::swap(&mut self.connections, &mut connections);
                let connection = connections.remove(at);
                core::mem::swap(&mut self.connections, &mut connections);
                Some(connection)
            },
            None => {
                assert(self@.remove(id@) =~= self@);
                None
            },
        }
    }

    fn find(&self, id: &str) -> (at: Option<usize>)
        ensures
            match at {
                Some(i) => i < self.connections@.len() && self.connections@[i as int].id@
                    == id@,
                None => !self@.dom().contains(id@),
            },
    {
        let key = id.to_owned();
        let mut i: usize = 0;
        while i < self.connections.len()
            invariant
                i <= self.connections@.len(),
                key@ == id@,
                forall|k: int| 0 <= k < i ==> self.connections@[k].id@ != id@,
            decreases self.connections@.len() - i,
        {
            if self.connections[i].id == key {
                return Some(i);
            }
            i += 1;
        }
        None
    }
}

impl Default for ConnectionClientState {
    fn default() -> (state: ConnectionClientState)
        ensures
            state@ == Map::<Seq<char>, Seq<char>>::empty(),
            state.spec_len() == 0,
            state.unique(),
    {
        ConnectionClientState::new()
    }
}

} // verus!
