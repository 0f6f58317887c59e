//! The connections that are open, by their id.

use crate::keyed_list::KeyedList;
use vstd::prelude::*;

verus! {

/// A lower-case hexadecimal digit.
pub open spec fn is_hex_digit(c: char) -> bool {
    '0' <= c <= '9' || 'a' <= c <= 'f'
}

/// The form of a connection id: a random UUID in its hyphenated form, that is hexadecimal
/// digits in groups of 8, 4, 4, 4 and 12, where the third group starts with the version and the
/// fourth with the variant.
pub open spec fn is_connection_id(text: Seq<char>) -> bool {
    &&& text.len() == 36
    &&& forall|i: int|
        0 <= i < 36 ==> if i == 8 || i == 13 || i == 18 || i == 23 {
            #[trigger] text[i] == '-'
        } else {
            is_hex_digit(text[i])
        }
    &&& text[14] == '4'
    &&& text[19] == '8' || text[19] == '9' || text[19] == 'a' || text[19] == 'b'
}

/// Calls `uuid::Uuid::new_v4` and writes the id with its `Display`. Trusted: whatever the random
/// bits, the text has the hyphenated form of a version 4 UUID.
#[verifier::external_body]
fn random_id() -> (id: String)
    ensures
        is_connection_id(id@),
{
    uuid::Uuid::new_v4().to_string()
}

/// The open connections of a server. `S` is what makes their agents, and `C` the handle by
/// which a connection is shared.
pub struct ConnectionRegistry<S, C> {
    pub server: S,
    connections: KeyedList<String, C>,
}

impl<S, C> View for ConnectionRegistry<S, C> {
    type V = Map<Seq<char>, C>;

    closed spec fn view(&self) -> Map<Seq<char>, C> {
        self.connections@
    }
}

impl<S, C> ConnectionRegistry<S, C> {
    /// The table of connections is in order.
    pub closed spec fn wf(self) -> bool {
        self.connections.wf()
    }

    /// What makes the agents of the connections.
    pub closed spec fn agents(self) -> S {
        self.server
    }

    /// A registry without connections.
    pub fn new(server: S) -> (registry: ConnectionRegistry<S, C>)
        ensures
            registry.wf(),
            registry.agents() == server,
            registry@ == Map::<Seq<char>, C>::empty(),
    {
        ConnectionRegistry { server, connections: KeyedList::new() }
    }

    /// Puts a connection under an id.
    pub fn register(&mut self, connection_id: String, connection: C)
        requires
            old(self).wf(),
        ensures
            final(self).wf(),
            final(self).agents() == old(self).agents(),
            final(self)@ == old(self)@.insert(connection_id@, connection),
    {
        self.connections.insert(connection_id, connection);
    }

    /// Puts a connection under a new random id, and gives the id.
    pub fn create_connection(&mut self, connection: C) -> (connection_id: String)
        requires
            old(self).wf(),
        ensures
            final(self).wf(),
            final(self).agents() == old(self).agents(),
            is_connection_id(connection_id@),
            final(self)@ == old(self)@.insert(connection_id@, connection),
    {
        let connection_id = random_id();
        self.register(connection_id.clone(), connection);
        connection_id
    }

    /// The connection under an id.
    pub fn get(&self, connection_id: &str) -> (connection: Option<&C>)
        requires
            self.wf(),
        ensures
            match connection {
                Some(connection) => {
                    &&& self@.contains_key(connection_id@)
                    &&& self@[connection_id@] == *connection
                },
                None => !self@.contains_key(connection_id@),
            },
    {
        self.connections.get(&connection_id.to_owned())
    }

    /// Takes the connection under an id out of the registry.
    pub fn remove(&mut self, connection_id: &str) -> (removed: Option<C>)
        requires
            old(self).wf(),
        ensures
            final(self).wf(),
            final(self).agents() == old(self).agents(),
            final(self)@ == old(self)@.remove(connection_id@),
            match removed {
                Some(connection) => {
                    &&& old(self)@.contains_key(connection_id@)
                    &&& old(self)@[connection_id@] == connection
                },
                None => !old(self)@.contains_key(connection_id@),
            },
    {
        self.connections.remove(&connection_id.to_owned())
    }
}

} // verus!
