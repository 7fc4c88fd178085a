//! The editor's RPC client. It serves the command topic of the broker: each
//! command that a widget published is executed in-process or queued for the
//! backend, as the connection strategy says, and each result is published
//! under the result topic of the id that asked for it.

use crate::broker::arena::ClientHandle;
use crate::broker::broker::{published, published_all, subscribed};
use crate::broker::laws::law_fan_out;
use crate::editor::server::{step_for, Read, Step};
use crate::broker::client::Client;
use crate::editor::app::BackendConnectionStrategy;
use crate::rpc::client::{received_frame, RpcClient, WsEvent};
use crate::rpc::contract::{Message as Request, Response, RpcResult};
use crate::rpc::executor::{interpret, RpcExecutor};
use crate::widget::contract::{
    law_clone_says_the_same, rpc_command_topic, rpc_result_topic, Broker, ClientArena, Message,
};
use std::collections::VecDeque;
use vstd::prelude::*;

verus! {

/// Capacity of the mailbox in which the editor collects commands.
pub const COMMAND_QUEUE_SIZE: usize = 100;

/// Where the connection to a remote backend stands.
#[derive(Debug, Clone, Copy, PartialEq, Eq, Structural)]
pub enum ConnectionState {
    Disconnected,
    Connecting,
    Connected,
}

/// The editor's client on the command topic, with its connection to the
/// backend.
pub struct Rpc {
    rpc_executor: RpcExecutor,
    connection_strategy: BackendConnectionStrategy,
    rpc_client: Option<RpcClient>,
    frontend_client: ClientHandle,
    subscribed: bool,
    has_connected: bool,
    connecting: bool,
}

/// The results that the commands among `messages` come to when they are
/// executed in-process, each with the result topic of its request, in the
/// order of the commands.
pub open spec fn local_results(messages: Seq<Message>) -> Seq<(Seq<char>, Message)>
    decreases messages.len(),
{
    if messages.len() == 0 {
        Seq::empty()
    } else {
        let before = local_results(messages.drop_last());
        match messages.last() {
            Message::RpcCommand { id, command } => before.push(
                (rpc_result_topic(id@), Message::RpcResult { result: interpret(command) }),
            ),
            _ => before,
        }
    }
}

/// The requests that the commands among `messages` make, in their order.
pub open spec fn requests(messages: Seq<Message>) -> Seq<Request>
    decreases messages.len(),
{
    if messages.len() == 0 {
        Seq::empty()
    } else {
        let before = requests(messages.drop_last());
        match messages.last() {
            Message::RpcCommand { id, command } => before.push(Request { id, command }),
            _ => before,
        }
    }
}

/// `after` is `arena` with the mailbox behind `handle` emptied.
pub open spec fn emptied(arena: &ClientArena, after: &ClientArena, handle: ClientHandle) -> bool {
    &&& after.same_but(arena, handle)
    &&& after.alive(handle) == arena.alive(handle)
    &&& arena.alive(handle) ==> after.client(handle).queue().len() == 0 && after.client(
        handle,
    ).same_identity(arena.client(handle))
    &&& !arena.alive(handle) ==> after@ == arena@
}

/// What the dispatch of the collected `messages` makes of the connection, the
/// table and the arena. With the internal strategy each command is executed
/// and its result published; with the remote strategy each command is queued
/// as a request on the connection, and is dropped where there is none.
pub open spec fn dispatched(
    rpc: &Rpc,
    table: Map<Seq<char>, Seq<ClientHandle>>,
    arena: &ClientArena,
    messages: Seq<Message>,
    client_after: Option<RpcClient>,
    table_after: Map<Seq<char>, Seq<ClientHandle>>,
    arena_after: &ClientArena,
) -> bool {
    match rpc.strategy() {
        BackendConnectionStrategy::Internal => {
            &&& client_after == rpc.client()
            &&& published_all(table, arena, local_results(messages), table_after, arena_after)
        },
        BackendConnectionStrategy::Remote => {
            &&& table_after == table
            &&& arena_after@ == arena@
            &&& match rpc.client() {
                Some(client) => {
                    &&& client_after matches Some(after)
                    &&& after.outgoing() == client.outgoing() + requests(messages)
                    &&& after.events() == client.events()
                },
                None => client_after is None,
            }
        },
    }
}

/// What the response that the host took off the connection makes of the table
/// and the arena: its result is published under the result topic of its id.
/// Without a connection there is no response to speak of.
pub open spec fn answered(
    connected: bool,
    table: Map<Seq<char>, Seq<ClientHandle>>,
    arena: &ClientArena,
    response: Option<Response>,
    table_after: Map<Seq<char>, Seq<ClientHandle>>,
    arena_after: &ClientArena,
) -> bool {
    if connected && response is Some {
        published(
            table,
            arena,
            rpc_result_topic(response->0.id@),
            Message::RpcResult { result: response->0.result },
            table_after,
            arena_after,
        )
    } else {
        table_after == table && arena_after@ == arena@
    }
}

/// The table once the client listens on the command topic: as it is where the
/// client has subscribed, else with the client's mailbox added to the topic.
pub open spec fn listening(rpc: &Rpc, table: Map<Seq<char>, Seq<ClientHandle>>) -> Map<
    Seq<char>,
    Seq<ClientHandle>,
> {
    if rpc.is_subscribed() {
        table
    } else {
        table.insert(
            rpc_command_topic(),
            subscribed(table, rpc_command_topic()).push(rpc.handle()),
        )
    }
}

/// What the client's mailbox holds, oldest first; nothing where the mailbox is
/// gone.
pub open spec fn collected(rpc: &Rpc, arena: &ClientArena) -> Seq<Message> {
    if arena.alive(rpc.handle()) {
        arena.client(rpc.handle()).queue()
    } else {
        Seq::empty()
    }
}

/// What an update makes of the client, the table and the arena: the command
/// topic is subscribed to where it was not yet, the mailbox is emptied, what
/// it held is dispatched, and the response is answered, in this order.
pub open spec fn updated(
    rpc: &Rpc,
    table: Map<Seq<char>, Seq<ClientHandle>>,
    arena: &ClientArena,
    response: Option<Response>,
    rpc_after: &Rpc,
    table_after: Map<Seq<char>, Seq<ClientHandle>>,
    arena_after: &ClientArena,
) -> bool {
    let listening = listening(rpc, table);
    let messages = collected(rpc, arena);
    &&& rpc_after.is_subscribed()
    &&& rpc_after.same_settings(rpc)
    &&& exists|
        drained: ClientArena,
        table_between: Map<Seq<char>, Seq<ClientHandle>>,
        arena_between: ClientArena,
    |
        emptied(arena, &drained, rpc.handle()) && #[trigger] dispatched(
            rpc,
            listening,
            &drained,
            messages,
            rpc_after.client(),
            table_between,
            &arena_between,
        ) && answered(
            rpc.client() is Some,
            table_between,
            &arena_between,
            response,
            table_after,
            arena_after,
        )
}

impl Rpc {
    /// The handle of the mailbox in which the commands are collected.
    pub closed spec fn handle(&self) -> ClientHandle {
        self.frontend_client
    }

    /// How commands reach the backend.
    pub closed spec fn strategy(&self) -> BackendConnectionStrategy {
        self.connection_strategy
    }

    /// The connection to a remote backend, once one was made.
    pub closed spec fn client(&self) -> Option<RpcClient> {
        self.rpc_client
    }

    /// The command topic has been subscribed to.
    pub closed spec fn is_subscribed(&self) -> bool {
        self.subscribed
    }

    /// A connection was made at some time.
    pub closed spec fn connected_once(&self) -> bool {
        self.has_connected
    }

    /// Where the connection stands.
    pub closed spec fn spec_state(&self) -> ConnectionState {
        if self.rpc_client is Some {
            ConnectionState::Connected
        } else if self.connecting {
            ConnectionState::Connecting
        } else {
            ConnectionState::Disconnected
        }
    }

    /// The settings that an update leaves alone are the same in both.
    pub open spec fn same_settings(&self, other: &Rpc) -> bool {
        &&& self.handle() == other.handle()
        &&& self.strategy() == other.strategy()
        &&& self.connected_once() == other.connected_once()
        &&& self.spec_state() == other.spec_state()
    }

    /// A client with the internal strategy and no connection; its mailbox is
    /// made in `arena`.
    pub fn new(arena: &mut ClientArena) -> (rpc: Self)
        requires
            old(arena).wf(),
        ensures
            final(arena).wf(),
            final(arena)@.len() == old(arena)@.len() + 1,
            final(arena)@.drop_last() == old(arena)@,
            rpc.handle().index() == old(arena)@.len(),
            final(arena).alive(rpc.handle()),
            final(arena).client(rpc.handle()).queue().len() == 0,
            final(arena).client(rpc.handle()).capacity() == COMMAND_QUEUE_SIZE,
            rpc.strategy() == BackendConnectionStrategy::Internal,
            rpc.client() is None,
            !rpc.is_subscribed(),
            !rpc.connected_once(),
            rpc.spec_state() == ConnectionState::Disconnected,
    {
        let frontend_client = arena.insert(Client::with_ring_buffer_size(COMMAND_QUEUE_SIZE));
        proof {
            assert(arena@.drop_last() =~= old(arena)@);
        }
        Rpc {
            rpc_executor: RpcExecutor,
            connection_strategy: BackendConnectionStrategy::Internal,
            rpc_client: None,
            frontend_client,
            subscribed: false,
            has_connected: false,
            connecting: false,
        }
    }

    /// Sets how commands reach the backend from now on.
    pub fn set_connection_strategy(&mut self, strategy: &BackendConnectionStrategy)
        ensures
            final(self).strategy() == *strategy,
            final(self).handle() == old(self).handle(),
            final(self).client() == old(self).client(),
            final(self).is_subscribed() == old(self).is_subscribed(),
            final(self).connected_once() == old(self).connected_once(),
            final(self).spec_state() == old(self).spec_state(),
    {
        self.connection_strategy = *strategy;
    }

    /// How commands reach the backend.
    pub fn connection_strategy(&self) -> (strategy: BackendConnectionStrategy)
        ensures
            strategy == self.strategy(),
    {
        self.connection_strategy
    }

    /// Whether a connection was made at some time.
    pub fn has_connected(&self) -> (connected: bool)
        ensures
            connected == self.connected_once(),
    {
        self.has_connected
    }

    /// Where the connection stands.
    pub fn state(&self) -> (state: ConnectionState)
        ensures
            state == self.spec_state(),
    {
        if self.rpc_client.is_some() {
            ConnectionState::Connected
        } else if self.connecting {
            ConnectionState::Connecting
        } else {
            ConnectionState::Disconnected
        }
    }

    /// Notes that the host has begun to connect. A connection that stands
    /// keeps standing until the new one is made.
    pub fn begin_connect(&mut self)
        ensures
            final(self).spec_state() == if old(self).spec_state() == ConnectionState::Connected {
                ConnectionState::Connected
            } else {
                ConnectionState::Connecting
            },
            final(self).client() == old(self).client(),
            final(self).handle() == old(self).handle(),
            final(self).strategy() == old(self).strategy(),
            final(self).is_subscribed() == old(self).is_subscribed(),
            final(self).connected_once() == old(self).connected_once(),
    {
        self.connecting = true;
    }

    /// Takes in how the host's attempt to connect ended. A connection that
    /// was made replaces the one before it and starts with nothing queued;
    /// an attempt that failed changes nothing but that it is over, and is not
    /// tried again.
    pub fn connect(&mut self, established: bool)
        ensures
            final(self).handle() == old(self).handle(),
            final(self).strategy() == old(self).strategy(),
            final(self).is_subscribed() == old(self).is_subscribed(),
            established ==> {
                &&& final(self).spec_state() == ConnectionState::Connected
                &&& final(self).connected_once()
                &&& final(self).client() matches Some(client) && client.outgoing().len() == 0
                    && client.events().len() == 0
            },
            !established ==> {
                &&& final(self).client() == old(self).client()
                &&& final(self).connected_once() == old(self).connected_once()
                &&& final(self).spec_state() == if old(self).spec_state()
                    == ConnectionState::Connected {
                    ConnectionState::Connected
                } else {
                    ConnectionState::Disconnected
                }
            },
    {
        self.connecting = false;
        if established {
            self.rpc_client = Some(RpcClient::new());
            self.has_connected = true;
        }
    }

    /// Whether there is a connection to send requests on.
    pub fn client_available(&mut self) -> (available: bool)
        ensures
            available == (old(self).client() is Some),
            *final(self) == *old(self),
    {
        self.rpc_client.is_some()
    }

    /// Takes in an event that the transport of the connection reported.
    /// Without a connection the event is dropped.
    pub fn handle_event(&mut self, event: WsEvent)
        ensures
            final(self).same_settings(old(self)),
            final(self).is_subscribed() == old(self).is_subscribed(),
            match old(self).client() {
                Some(client) => final(self).client() matches Some(after) && after.events()
                    == client.events().push(event) && after.outgoing() == client.outgoing(),
                None => final(self).client() is None,
            },
    {
        match &mut self.rpc_client {
            Some(client) => client.handle_event(event),
            None => {},
        }
    }

    /// The bytes of the first frame among the events that wait on the
    /// connection; see `RpcClient::receive`. Without a connection there is
    /// none.
    pub fn receive(&mut self) -> (frame: Option<Vec<u8>>)
        ensures
            final(self).same_settings(old(self)),
            final(self).is_subscribed() == old(self).is_subscribed(),
            match old(self).client() {
                Some(client) => final(self).client() matches Some(after) && received_frame(
                    client,
                    after,
                    frame,
                ),
                None => final(self).client() is None && frame is None,
            },
    {
        match &mut self.rpc_client {
            Some(client) => client.receive(),
            None => None,
        }
    }

    /// Hands over the requests that wait on the connection, oldest first, for
    /// the host to send. Without a connection there are none.
    pub fn take_outgoing(&mut self) -> (requests: Vec<Request>)
        ensures
            final(self).same_settings(old(self)),
            final(self).is_subscribed() == old(self).is_subscribed(),
            match old(self).client() {
                Some(client) => final(self).client() matches Some(after) && requests@
                    == client.outgoing() && after.outgoing().len() == 0 && after.events()
                    == client.events(),
                None => final(self).client() is None && requests@.len() == 0,
            },
    {
        match &mut self.rpc_client {
            Some(client) => client.take_outgoing(),
            None => Vec::new(),
        }
    }

    fn subscribe(&mut self, broker: &mut Broker)
        requires
            old(broker).wf(),
        ensures
            final(broker).wf(),
            final(broker)@ == old(broker)@.insert(
                rpc_command_topic(),
                subscribed(old(broker)@, rpc_command_topic()).push(old(self).handle()),
            ),
            final(self).is_subscribed(),
            final(self).same_settings(old(self)),
            final(self).client() == old(self).client(),
    {
        let topic = Message::rpc_command_topic();
        broker.subscribe(topic.as_str(), &self.frontend_client);
        self.subscribed = true;
    }

    /// One tick of the client: subscribes to the command topic where that is
    /// still to do, takes what its mailbox holds and dispatches it, then
    /// publishes the `response` that the host took off the connection.
    pub fn update(&mut self, broker: &mut Broker, arena: &mut ClientArena, response: Option<Response>)
        requires
            old(broker).wf(),
            old(arena).wf(),
        ensures
            final(broker).wf(),
            final(arena).wf(),
            updated(
                old(self),
                old(broker)@,
                old(arena),
                response,
                final(self),
                final(broker)@,
                final(arena),
            ),
    {
        if !self.subscribed {
            self.subscribe(broker);
        }
        let ghost heard = broker@;
        proof {
            assert(heard == listening(old(self), old(broker)@));
        }
        let ghost held = collected(old(self), old(arena));
        let mut messages = arena.drain(&self.frontend_client);
        let ghost drained = *arena;
        let ghost mut done: Seq<Message> = Seq::empty();
        proof {
            assert(messages@ =~= held);
            assert(done + messages@ =~= held);
            if self.client() is Some {
                assert(self.client()->0.outgoing() + requests(done) =~= self.client()->0.outgoing());
            }
        }
        while messages.len() > 0
            invariant
                broker.wf(),
                arena.wf(),
                done + messages@ == held,
                self.is_subscribed(),
                self.same_settings(old(self)),
                self.client() is Some <==> old(self).client() is Some,
                dispatched(old(self), heard, &drained, done, self.client(), broker@, arena),
            decreases messages@.len(),
        {
            let ghost table_before = broker@;
            let ghost arena_before = *arena;
            let message = messages.pop_front().unwrap();
            let ghost taken = message;
            proof {
                assert(done.push(taken).drop_last() =~= done);
                assert(done.push(taken) + messages@ =~= held);
            }
            match message {
                Message::RpcCommand { id, command } => {
                    match self.connection_strategy {
                        BackendConnectionStrategy::Internal => {
                            let result = self.rpc_executor.execute(&id, command);
                            publish_result(broker, arena, id.as_str(), result);
                            proof {
                                let items = local_results(done);
                                let item = (
                                    rpc_result_topic(id@),
                                    Message::RpcResult { result: interpret(command) },
                                );
                                assert(local_results(done.push(taken)) == items.push(item));
                                assert(items.push(item).drop_last() =~= items);
                                assert(published_all(
                                    heard,
                                    &drained,
                                    items.push(item).drop_last(),
                                    table_before,
                                    &arena_before,
                                ));
                                assert(published(
                                    table_before,
                                    &arena_before,
                                    item.0,
                                    item.1,
                                    broker@,
                                    arena,
                                ));
                                assert(items.push(item).last() == item);
                                assert(published_all(
                                    heard,
                                    &drained,
                                    items.push(item),
                                    broker@,
                                    arena,
                                ));
                                assert(dispatched(
                                    old(self),
                                    heard,
                                    &drained,
                                    done.push(taken),
                                    self.client(),
                                    broker@,
                                    arena,
                                ));
                            }
                        },
                        BackendConnectionStrategy::Remote => {
                            match &mut self.rpc_client {
                                Some(client) => {
                                    client.send(id, command);
                                },
                                None => {},
                            }
                            proof {
                                assert(requests(done.push(taken)) == requests(done).push(
                                    Request { id, command },
                                ));
                                if old(self).client() is Some {
                                    let first = old(self).client()->0.outgoing();
                                    assert(first + requests(done.push(taken)) =~= (first
                                        + requests(done)).push(Request { id, command }));
                                }
                                assert(dispatched(
                                    old(self),
                                    heard,
                                    &drained,
                                    done.push(taken),
                                    self.client(),
                                    broker@,
                                    arena,
                                ));
                            }
                        },
                    }
                },
                _ => {
                    proof {
                        assert(local_results(done.push(taken)) == local_results(done));
                        assert(requests(done.push(taken)) == requests(done));
                        assert(dispatched(
                            old(self),
                            heard,
                            &drained,
                            done.push(taken),
                            self.client(),
                            broker@,
                            arena,
                        ));
                    }
                },
            }
            proof {
                done = done.push(taken);
            }
        }
        proof {
            assert(done =~= held);
        }
        let ghost table_between = broker@;
        let ghost arena_between = *arena;
        match response {
            Some(response) => {
                if self.rpc_client.is_some() {
                    let Response { id, result } = response;
                    publish_result(broker, arena, id.as_str(), result);
                }
            },
            None => {},
        }
        proof {
            assert(emptied(old(arena), &drained, old(self).handle()));
            assert(dispatched(
                old(self),
                heard,
                &drained,
                held,
                self.client(),
                table_between,
                &arena_between,
            ));
            assert(answered(
                old(self).client() is Some,
                table_between,
                &arena_between,
                response,
                broker@,
                arena,
            ));
        }
    }
}

/// Publishes `result` under the result topic of the correlation id `id`, where
/// the one who asked under that id is subscribed.
pub fn publish_result(broker: &mut Broker, arena: &mut ClientArena, id: &str, result: RpcResult)
    requires
        old(broker).wf(),
        old(arena).wf(),
    ensures
        final(broker).wf(),
        final(arena).wf(),
        published(
            old(broker)@,
            old(arena),
            rpc_result_topic(id@),
            Message::RpcResult { result },
            final(broker)@,
            final(arena),
        ),
{
    let topic = Message::rpc_result_topic(id);
    broker.publish(arena, topic.as_str(), Message::RpcResult { result });
}

/// The response to a request comes back under the
/// id of the request, and once it is published its result is the newest
/// message of each live mailbox that is subscribed to the result topic of that
/// id and can hold a message. Every other mailbox holds what it held.
pub proof fn law_round_trip(
    request: Request,
    table: Map<Seq<char>, Seq<ClientHandle>>,
    arena: &ClientArena,
    table_after: Map<Seq<char>, Seq<ClientHandle>>,
    arena_after: &ClientArena,
    handle: ClientHandle,
)
    requires
        arena.wf(),
        arena.alive(handle),
        answered(
            true,
            table,
            arena,
            Some(Response { id: request.id, result: interpret(request.command) }),
            table_after,
            arena_after,
        ),
    ensures
        step_for(Read::Request(request)) == Step::Respond(
            Response { id: request.id, result: interpret(request.command) },
        ),
        arena_after.alive(handle),
        subscribed(table, rpc_result_topic(request.id@)).contains(handle) && arena.client(
            handle,
        ).capacity() > 0 ==> arena_after.client(handle).queue().len() > 0 && arena_after.client(
            handle,
        ).queue().last() == (Message::RpcResult { result: interpret(request.command) }),
        !subscribed(table, rpc_result_topic(request.id@)).contains(handle) ==> arena_after.client(
            handle,
        ).queue() == arena.client(handle).queue(),
{
    let message = Message::RpcResult { result: interpret(request.command) };
    law_fan_out(
        arena,
        arena_after,
        subscribed(table, rpc_result_topic(request.id@)),
        message,
        handle,
    );
    if subscribed(table, rpc_result_topic(request.id@)).contains(handle) && arena.client(
        handle,
    ).capacity() > 0 {
        law_clone_says_the_same(message, arena_after.client(handle).queue().last());
    }
}

} // verus!
