//! The broker: it gives every accepted connection a client id, keeps the
//! actors of the live connections, and broadcasts envelopes to them.

use crate::message::{view_of, Message, MessageView};
use crate::messenger::{ConnectionState, Messenger, MessengerView, StreamEvent};
use crate::parser::{Parser, ParserManager};
use std::sync::Arc;
use vstd::prelude::*;

verus! {

/// A broker as plain values.
pub struct ServerView<P> {
    /// The port on which the broker listens.
    pub port: u16,
    /// The client id that the next connection gets. Every id below it has
    /// been handed out, and none from it on.
    pub issued: u32,
    /// The live connections, each with its client id.
    pub clients: Seq<(u32, MessengerView)>,
    /// The registry that inbound envelopes are dispatched to.
    pub parsers: Map<u32, P>,
}

/// The actor of a connection that was just accepted.
pub open spec fn fresh_connection() -> MessengerView {
    MessengerView { queue: Seq::empty(), state: ConnectionState::Active, failure: None }
}

/// What `actor` is once `message` was queued for it.
pub open spec fn queued(actor: MessengerView, message: MessageView) -> MessengerView {
    MessengerView { queue: actor.queue.push(message), ..actor }
}

/// The view of an actor that was looked up or removed, if one was.
pub open spec fn actor_view(actor: Option<Messenger>) -> Option<MessengerView> {
    match actor {
        Some(a) => Some(a@),
        None => None,
    }
}

/// One change of the live connections.
pub enum Cycle {
    /// A connection is accepted.
    Accept,
    /// The connection of a client ends.
    Disconnect(u32),
}

impl<P: Parser> ServerView<P> {
    /// The client ids of the live connections.
    pub open spec fn live_ids(self) -> Seq<u32> {
        self.clients.map_values(|c: (u32, MessengerView)| c.0)
    }

    /// Where the connection of `client_id` stands among the live
    /// connections, if it is live.
    pub open spec fn position(self, client_id: u32) -> Option<int> {
        self.live_ids().index_of_first(client_id)
    }

    /// No two live connections share a client id, and every live id has
    /// been handed out.
    pub open spec fn wf(self) -> bool {
        &&& self.live_ids().no_duplicates()
        &&& forall|i: int|
            0 <= i < self.clients.len() ==> (#[trigger] self.clients[i]).0 < self.issued
    }

    /// Whether another client id can be handed out.
    pub open spec fn has_free_id(self) -> bool {
        self.issued < u32::MAX
    }

    /// The broker after it accepted a connection: the connection is live
    /// under the next client id. Once the ids are used up, nothing changes.
    pub open spec fn accepted(self) -> ServerView<P> {
        if self.has_free_id() {
            ServerView {
                issued: (self.issued + 1) as u32,
                clients: self.clients.push((self.issued, fresh_connection())),
                ..self
            }
        } else {
            self
        }
    }

    /// The broker after `message` was broadcast: one copy of it is queued
    /// for every live connection, and the live connections are the same.
    pub open spec fn broadcast(self, message: MessageView) -> ServerView<P> {
        ServerView {
            clients: Seq::new(
                self.clients.len(),
                |i: int| (self.clients[i].0, queued(self.clients[i].1, message)),
            ),
            ..self
        }
    }

    /// The broker with `actor` in the place of the actor at `position`.
    pub open spec fn with_actor(self, position: int, actor: MessengerView) -> ServerView<P>
        recommends
            0 <= position < self.clients.len(),
    {
        ServerView {
            clients: self.clients.update(position, (self.clients[position].0, actor)),
            ..self
        }
    }

    /// The broker after the connection of `client_id` was removed: the last
    /// live connection takes its place. A client id that is not live
    /// changes nothing.
    pub open spec fn removed(self, client_id: u32) -> ServerView<P> {
        match self.position(client_id) {
            Some(i) => ServerView {
                clients: self.clients.update(i, self.clients.last()).drop_last(),
                ..self
            },
            None => self,
        }
    }

    /// The broker after the changes `cycles`, one after the other.
    pub open spec fn after_cycles(self, cycles: Seq<Cycle>) -> ServerView<P>
        decreases cycles.len(),
    {
        if cycles.len() == 0 {
            self
        } else {
            let before = self.after_cycles(cycles.drop_last());
            match cycles.last() {
                Cycle::Accept => before.accepted(),
                Cycle::Disconnect(client_id) => before.removed(client_id),
            }
        }
    }
}

/// The broker: the port it listens on, the registry, the live connections
/// and the next client id.
pub struct Server<P: Parser> {
    port: u16,
    clients: Vec<(u32, Messenger)>,
    parser: Arc<ParserManager<P>>,
    current_id: u32,
}

impl<P: Parser> View for Server<P> {
    type V = ServerView<P>;

    closed spec fn view(&self) -> ServerView<P> {
        ServerView {
            port: self.port,
            issued: self.current_id,
            clients: self.clients@.map_values(|c: (u32, Messenger)| (c.0, c.1@)),
            parsers: self.parser@,
        }
    }
}

impl<P: Parser> Server<P> {
    /// A broker for `port` that dispatches to `parser`. It has no live
    /// connection, and the first client id it hands out is zero.
    pub fn with_port(port: u16, parser: Arc<ParserManager<P>>) -> (server: Server<P>)
        ensures
            server@ == (ServerView {
                port,
                issued: 0,
                clients: Seq::empty(),
                parsers: parser@,
            }),
            server@.wf(),
    {
        let server = Server { port, clients: Vec::new(), parser, current_id: 0 };
        assert(server@.clients =~= Seq::empty());
        server
    }

    /// The port on which the broker listens.
    pub fn get_port(&self) -> (port: u16)
        ensures
            port == self@.port,
    {
        self.port
    }

    /// Looks for the live connection of `client_id`.
    fn find_client(&self, client_id: u32) -> (found: Option<usize>)
        ensures
            match found {
                Some(i) => self@.position(client_id) == Some(i as int) && i < self.clients@.len(),
                None => self@.position(client_id) is None,
            },
    {
        let ghost ids = self@.live_ids();
        let mut i: usize = 0;
        while i < self.clients.len()
            invariant
                i <= self.clients@.len(),
                ids == self@.live_ids(),
                ids.len() == self.clients@.len(),
                forall|k: int| 0 <= k < i ==> ids[k] != client_id,
            decreases self.clients@.len() - i,
        {
            if self.clients[i].0 == client_id {
                proof {
                    ids.index_of_first_ensures(client_id);
                    assert(ids[i as int] == client_id);
                }
                return Some(i);
            }
            i = i + 1;
        }
        proof {
            ids.index_of_first_ensures(client_id);
        }
        None
    }

    /// Accepts a connection: hands out the next client id and makes the
    /// connection live under it, with a new actor. Returns the id, or
    /// nothing once the ids are used up.
    pub fn accept_client(&mut self) -> (client_id: Option<u32>)
        ensures
            final(self)@ == old(self)@.accepted(),
            client_id == if old(self)@.has_free_id() {
                Some(old(self)@.issued)
            } else {
                None
            },
            old(self)@.wf() ==> final(self)@.wf(),
    {
        if self.current_id == u32::MAX {
            return None;
        }
        let client_id: u32 = self.current_id;
        self.current_id = client_id + 1;
        self.clients.push((client_id, Messenger::with_connection()));
        proof {
            assert(self@.clients =~= old(self)@.clients.push((client_id, fresh_connection())));
            if old(self)@.wf() {
                lemma_accepted_keeps_wf(old(self)@);
            }
        }
        Some(client_id)
    }

    /// Queues a copy of `message` for every live connection.
    pub fn broadcast_message(&mut self, message: Message)
        ensures
            final(self)@ == old(self)@.broadcast(message@),
            old(self)@.wf() ==> final(self)@.wf(),
    {
        let count: usize = self.clients.len();
        let mut i: usize = 0;
        while i < count
            invariant
                i <= count == self.clients@.len() == old(self).clients@.len(),
                self.port == old(self).port,
                self.current_id == old(self).current_id,
                self.parser == old(self).parser,
                forall|k: int|
                    0 <= k < count ==> (#[trigger] self.clients@[k]).0 == old(self).clients@[k].0,
                forall|k: int|
                    0 <= k < i ==> (#[trigger] self.clients@[k]).1@ == queued(
                        old(self).clients@[k].1@,
                        message@,
                    ),
                forall|k: int|
                    i <= k < count ==> (#[trigger] self.clients@[k]).1@ == old(self).clients@[k].1@,
            decreases count - i,
        {
            self.clients[i].1.add_to_send_queue(message.clone());
            i = i + 1;
        }
        proof {
            assert(self@.clients =~= old(self)@.broadcast(message@).clients);
            if old(self)@.wf() {
                lemma_broadcast_keeps_wf(old(self)@, message@);
            }
        }
    }

    /// Takes the envelope that is to be written next to the client
    /// `client_id`, if its connection is live and active and one waits.
    pub fn next_outbound(&mut self, client_id: u32) -> (message: Option<Message>)
        ensures
            match old(self)@.position(client_id) {
                Some(i) => {
                    &&& view_of(message) == old(self)@.clients[i].1.outbound()
                    &&& final(self)@ == old(self)@.with_actor(
                        i,
                        old(self)@.clients[i].1.after_outbound(),
                    )
                },
                None => message is None && final(self)@ == old(self)@,
            },
            old(self)@.wf() ==> final(self)@.wf(),
    {
        match self.find_client(client_id) {
            Some(i) => {
                let message = self.clients[i].1.next_outbound();
                proof {
                    let actor = old(self)@.clients[i as int].1.after_outbound();
                    assert(self@.clients =~= old(self)@.with_actor(i as int, actor).clients);
                    if old(self)@.wf() {
                        lemma_with_actor_keeps_wf(old(self)@, i as int, actor);
                    }
                }
                message
            },
            None => None,
        }
    }

    /// Hands `event` to the actor of the client `client_id` and returns
    /// where its connection stands afterwards, or nothing if the client is
    /// not live.
    pub fn handle_client(&mut self, client_id: u32, event: StreamEvent) -> (state: Option<
        ConnectionState,
    >)
        ensures
            match old(self)@.position(client_id) {
                Some(i) => {
                    let actor = final(self)@.clients[i].1;
                    &&& old(self)@.clients[i].1.steps_to(old(self)@.parsers, event, actor)
                    &&& state == Some(actor.state)
                    &&& final(self)@ == old(self)@.with_actor(i, actor)
                },
                None => state is None && final(self)@ == old(self)@,
            },
            old(self)@.wf() ==> final(self)@.wf(),
    {
        match self.find_client(client_id) {
            Some(i) => {
                let state = self.clients[i].1.handle_client_stream(&*self.parser, event);
                proof {
                    let actor = self@.clients[i as int].1;
                    assert(self@.clients =~= old(self)@.with_actor(i as int, actor).clients);
                    if old(self)@.wf() {
                        lemma_with_actor_keeps_wf(old(self)@, i as int, actor);
                    }
                }
                Some(state)
            },
            None => None,
        }
    }

    /// Removes the connection of `client_id` from the live connections and
    /// returns its actor, or nothing if the client is not live.
    pub fn remove_client(&mut self, client_id: u32) -> (actor: Option<Messenger>)
        ensures
            final(self)@ == old(self)@.removed(client_id),
            actor_view(actor) == match old(self)@.position(client_id) {
                Some(i) => Some(old(self)@.clients[i].1),
                None => None,
            },
            old(self)@.wf() ==> final(self)@.wf(),
    {
        match self.find_client(client_id) {
            Some(i) => {
                let (_, actor) = self.clients.swap_remove(i);
                proof {
                    assert(self@.clients =~= old(self)@.removed(client_id).clients);
                    if old(self)@.wf() {
                        lemma_removed_keeps_wf(old(self)@, client_id);
                    }
                }
                Some(actor)
            },
            None => None,
        }
    }

    /// The actor of the client `client_id`, if its connection is live.
    pub fn client(&self, client_id: u32) -> (actor: Option<&Messenger>)
        ensures
            match self@.position(client_id) {
                Some(i) => actor matches Some(a) && a@ == self@.clients[i].1,
                None => actor is None,
            },
    {
        match self.find_client(client_id) {
            Some(i) => Some(&self.clients[i].1),
            None => None,
        }
    }
}

/// The position of a client is the first place among the live connections
/// that holds its id, and the only one where no id is shared. A client
/// without position is not live.
pub proof fn lemma_position<P: Parser>(server: ServerView<P>, client_id: u32)
    ensures
        match server.position(client_id) {
            Some(i) => {
                &&& 0 <= i < server.clients.len()
                &&& server.clients[i].0 == client_id
                &&& forall|j: int| 0 <= j < i ==> (#[trigger] server.clients[j]).0 != client_id
                &&& server.wf() ==> forall|j: int|
                    0 <= j < server.clients.len() && j != i ==> (#[trigger] server.clients[j]).0
                        != client_id
            },
            None => forall|j: int|
                0 <= j < server.clients.len() ==> (#[trigger] server.clients[j]).0 != client_id,
        },
{
    let ids = server.live_ids();
    ids.index_of_first_ensures(client_id);
    assert forall|j: int| 0 <= j < server.clients.len() implies ids[j] == (
    #[trigger] server.clients[j]).0 by {}
    if let Some(i) = server.position(client_id) {
        if server.wf() {
            assert forall|j: int| 0 <= j < server.clients.len() && j != i implies (
            #[trigger] server.clients[j]).0 != client_id by {
                lemma_live_ids_unique(server, i, j);
            }
        }
    }
}

/// No two live connections share a client id.
pub proof fn lemma_live_ids_unique<P: Parser>(server: ServerView<P>, i: int, j: int)
    requires
        server.wf(),
        0 <= i < server.clients.len(),
        0 <= j < server.clients.len(),
        i != j,
    ensures
        server.clients[i].0 != server.clients[j].0,
{
    assert(server.live_ids()[i] == server.clients[i].0);
    assert(server.live_ids()[j] == server.clients[j].0);
}

/// Accepting a connection keeps the client ids apart: the new connection
/// gets an id that no live connection has and that was never handed out.
pub proof fn lemma_accepted_keeps_wf<P: Parser>(server: ServerView<P>)
    requires
        server.wf(),
    ensures
        server.accepted().wf(),
        server.accepted().issued >= server.issued,
        server.has_free_id() ==> !server.live_ids().contains(server.issued),
{
    let after = server.accepted();
    let ids = after.live_ids();
    assert forall|i: int, j: int|
        0 <= i < ids.len() && 0 <= j < ids.len() && i != j implies ids[i] != ids[j] by {
        if i < server.clients.len() && j < server.clients.len() {
            lemma_live_ids_unique(server, i, j);
        }
    }
    if server.has_free_id() {
        lemma_below_issued_not_live(server, server.issued);
    }
}

/// A client id that was not handed out yet is not live.
pub proof fn lemma_below_issued_not_live<P: Parser>(server: ServerView<P>, client_id: u32)
    requires
        server.wf(),
        client_id >= server.issued,
    ensures
        !server.live_ids().contains(client_id),
        server.position(client_id) is None,
{
    lemma_position(server, client_id);
    if server.live_ids().contains(client_id) {
        let k = choose|k: int|
            0 <= k < server.live_ids().len() && server.live_ids()[k] == client_id;
        assert(server.clients[k].0 < server.issued);
    }
}

/// A broadcast leaves the live connections and their client ids as they
/// were, and queues exactly one copy of the envelope for each of them.
pub proof fn lemma_broadcast_fan_out<P: Parser>(server: ServerView<P>, message: MessageView)
    ensures
        server.broadcast(message).live_ids() == server.live_ids(),
        forall|i: int|
            0 <= i < server.clients.len() ==> (#[trigger] server.broadcast(
                message,
            ).clients[i]).1.queue == server.clients[i].1.queue.push(message),
        forall|client_id: u32|
            server.broadcast(message).position(client_id) == server.position(client_id),
{
    assert(server.broadcast(message).live_ids() =~= server.live_ids());
}

/// A broadcast keeps the client ids apart.
pub proof fn lemma_broadcast_keeps_wf<P: Parser>(server: ServerView<P>, message: MessageView)
    requires
        server.wf(),
    ensures
        server.broadcast(message).wf(),
        server.broadcast(message).issued == server.issued,
{
    lemma_broadcast_fan_out(server, message);
}

/// Replacing the actor of a live connection keeps the client ids apart.
pub proof fn lemma_with_actor_keeps_wf<P: Parser>(
    server: ServerView<P>,
    position: int,
    actor: MessengerView,
)
    requires
        server.wf(),
        0 <= position < server.clients.len(),
    ensures
        server.with_actor(position, actor).wf(),
        server.with_actor(position, actor).live_ids() == server.live_ids(),
        server.with_actor(position, actor).issued == server.issued,
{
    assert(server.with_actor(position, actor).live_ids() =~= server.live_ids());
}

/// Removing a connection keeps the client ids apart, and the client id
/// that was removed is no longer live.
pub proof fn lemma_removed_keeps_wf<P: Parser>(server: ServerView<P>, client_id: u32)
    requires
        server.wf(),
    ensures
        server.removed(client_id).wf(),
        !server.removed(client_id).live_ids().contains(client_id),
        server.removed(client_id).issued == server.issued,
{
    lemma_position(server, client_id);
    let after = server.removed(client_id);
    if let Some(gap) = server.position(client_id) {
        // Where the connection at place `i` stood before the removal.
        let before = |i: int| if i == gap { server.clients.len() - 1 } else { i };
        assert forall|i: int| 0 <= i < after.clients.len() implies (#[trigger] after.clients[i])
            == server.clients[before(i)] by {}
        let ids = after.live_ids();
        assert forall|i: int, j: int|
            0 <= i < ids.len() && 0 <= j < ids.len() && i != j implies ids[i] != ids[j] by {
            assert(after.clients[i] == server.clients[before(i)]);
            assert(after.clients[j] == server.clients[before(j)]);
            lemma_live_ids_unique(server, before(i), before(j));
        }
        if after.live_ids().contains(client_id) {
            let k = choose|k: int|
                0 <= k < after.live_ids().len() && after.live_ids()[k] == client_id;
            assert(after.clients[k] == server.clients[before(k)]);
        }
    } else {
        assert forall|j: int| 0 <= j < server.clients.len() implies server.live_ids()[j]
            != client_id by {
            assert(server.clients[j].0 != client_id);
        }
    }
}

/// However connections are accepted and ended, no two live connections
/// ever share a client id, and no client id is handed out again.
pub proof fn lemma_client_ids_stay_unique<P: Parser>(server: ServerView<P>, cycles: Seq<Cycle>)
    requires
        server.wf(),
    ensures
        server.after_cycles(cycles).wf(),
        server.after_cycles(cycles).issued >= server.issued,
    decreases cycles.len(),
{
    if cycles.len() > 0 {
        lemma_client_ids_stay_unique(server, cycles.drop_last());
        let before = server.after_cycles(cycles.drop_last());
        match cycles.last() {
            Cycle::Accept => lemma_accepted_keeps_wf(before),
            Cycle::Disconnect(client_id) => lemma_removed_keeps_wf(before, client_id),
        }
    }
}

} // verus!
