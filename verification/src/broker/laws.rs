//! What holds of every broker, arena and mailbox, stated over the models that
//! the contracts of their operations use.

use crate::broker::arena::{ClientArena, ClientHandle};
use crate::broker::broker::{
    copies_of, fanned_out, lemma_live_push, lemma_occurrences_push, live, live_others,
    occurrences, published, received, subscribed, with_subscribers,
};
use crate::broker::client::{is_copy_of_oldest, oldest, retain_last, without_oldest, Client};
use vstd::prelude::*;

verus! {

/// A mailbox that a publish did not reach holds what it held.
pub proof fn law_unreached_mailbox_keeps_its_queue<T: Clone>(
    before: Client<T>,
    after: Client<T>,
    message: T,
)
    requires
        before.wf(),
        received(before, after, 0, message),
    ensures
        after.queue() == before.queue(),
{
    let copies = choose|copies: Seq<T>| #[trigger]
        copies_of(message, copies, 0) && after.queue() == retain_last(
            before.queue() + copies,
            before.capacity(),
        );
    assert(before.queue() + copies =~= before.queue());
}

/// A mailbox that can hold a message and was
/// reached once holds a clone of the message as its newest one, behind as
/// much of what it held as still fits. Where it was empty, the clone is what
/// the next take hands out.
pub proof fn law_delivery<T: Clone>(before: Client<T>, after: Client<T>, message: T)
    requires
        before.wf(),
        before.capacity() > 0,
        received(before, after, 1, message),
    ensures
        after.wf(),
        after.queue().len() > 0,
        cloned(message, after.queue().last()),
        after.queue().drop_last() == retain_last(
            before.queue(),
            (before.capacity() - 1) as nat,
        ),
        before.queue().len() == 0 ==> match oldest(after.queue()) {
            Some(first) => cloned(message, first) && without_oldest(after.queue()).len() == 0,
            None => false,
        },
{
    let copies = choose|copies: Seq<T>| #[trigger]
        copies_of(message, copies, 1) && after.queue() == retain_last(
            before.queue() + copies,
            before.capacity(),
        );
    assert(cloned(message, copies[0]));
    assert(after.queue().drop_last() =~= retain_last(
        before.queue(),
        (before.capacity() - 1) as nat,
    ));
}

/// An empty mailbox with room for two that was reached by one
/// message and then by another holds a clone of the first in front of a clone
/// of the second.
pub proof fn law_arrival_order<T: Clone>(
    empty: Client<T>,
    between: Client<T>,
    after: Client<T>,
    first: T,
    second: T,
)
    requires
        empty.queue().len() == 0,
        empty.capacity() >= 2,
        received(empty, between, 1, first),
        received(between, after, 1, second),
    ensures
        after.queue().len() == 2,
        cloned(first, after.queue()[0]),
        cloned(second, after.queue()[1]),
{
    let one = choose|copies: Seq<T>| #[trigger]
        copies_of(first, copies, 1) && between.queue() == retain_last(
            empty.queue() + copies,
            empty.capacity(),
        );
    let two = choose|copies: Seq<T>| #[trigger]
        copies_of(second, copies, 1) && after.queue() == retain_last(
            between.queue() + copies,
            between.capacity(),
        );
    assert(cloned(first, one[0]));
    assert(cloned(second, two[0]));
    assert(empty.queue() + one =~= one);
    assert((between.queue() + two)[0] == one[0]);
    assert((between.queue() + two)[1] == two[0]);
}

/// After a publish each live subscriber that can hold a message holds
/// a clone of it as its newest one, and whoever is not subscribed holds what
/// it held.
pub proof fn law_fan_out<T: Clone>(
    before: &ClientArena<T>,
    after: &ClientArena<T>,
    clients: Seq<ClientHandle>,
    message: T,
    handle: ClientHandle,
)
    requires
        before.wf(),
        before.alive(handle),
        fanned_out(before, after, clients, message),
    ensures
        after.alive(handle),
        after.client(handle).same_identity(before.client(handle)),
        after.client(handle).wf(),
        clients.contains(handle) && before.client(handle).capacity() > 0 ==> {
            &&& after.client(handle).queue().len() > 0
            &&& cloned(message, after.client(handle).queue().last())
        },
        !clients.contains(handle) ==> after.client(handle).queue() == before.client(
            handle,
        ).queue(),
{
    let start = before.client(handle);
    let end = after.client(handle);
    let n = occurrences(clients, handle);
    assert(received(start, end, n, message));
    let copies = choose|copies: Seq<T>| #[trigger]
        copies_of(message, copies, n) && end.queue() == retain_last(
            start.queue() + copies,
            start.capacity(),
        );
    lemma_occurrences_counts(clients, handle);
    if clients.contains(handle) {
        assert(cloned(message, copies[n - 1]));
        assert((start.queue() + copies).last() == copies[n - 1]);
    } else {
        assert(start.queue() + copies =~= start.queue());
    }
}

/// A handle stands in a list at least once exactly where the list contains it.
pub proof fn lemma_occurrences_counts(clients: Seq<ClientHandle>, handle: ClientHandle)
    ensures
        occurrences(clients, handle) > 0 <==> clients.contains(handle),
    decreases clients.len(),
{
    reveal(Seq::filter);
    if clients.len() > 0 {
        let rest = clients.drop_last();
        lemma_occurrences_counts(rest, handle);
        if rest.contains(handle) {
            let i = choose|i: int| 0 <= i < rest.len() && rest[i] == handle;
            assert(clients[i] == handle);
        }
        if clients.last() == handle {
            assert(clients[clients.len() - 1] == handle);
        }
        if clients.contains(handle) {
            let i = choose|i: int| 0 <= i < clients.len() && clients[i] == handle;
            if i < clients.len() - 1 {
                assert(rest[i] == handle);
            }
        }
    }
}

/// A mailbox of capacity `n` that receives one message after another
/// holds the newest `n` of all that it held and received, oldest first.
pub proof fn law_ring_buffer<T>(queue: Seq<T>, arrivals: Seq<T>, n: nat)
    ensures
        retain_last(queue + arrivals, n).len() <= if queue.len() + arrivals.len() <= n {
            queue.len() + arrivals.len()
        } else {
            n
        },
        arrivals.len() > 0 ==> retain_last(queue + arrivals, n) == retain_last(
            retain_last(queue + arrivals.drop_last(), n).push(arrivals.last()),
            n,
        ),
        forall|i: int|
            0 <= i < retain_last(queue + arrivals, n).len() ==> #[trigger] retain_last(
                queue + arrivals,
                n,
            )[i] == (queue + arrivals)[(queue + arrivals).len() - retain_last(
                queue + arrivals,
                n,
            ).len() + i],
{
    if arrivals.len() > 0 {
        assert(queue + arrivals =~= (queue + arrivals.drop_last()).push(arrivals.last()));
        crate::broker::broker::lemma_retain_last_push(
            queue + arrivals.drop_last(),
            arrivals.last(),
            n,
        );
    }
}

/// Once an identity is unsubscribed from a topic, no
/// mailbox with that identity stands under it, and the other live mailboxes
/// stand under it as often as before.
pub proof fn law_unsubscribe_isolation<T: Clone>(
    arena: &ClientArena<T>,
    clients: Seq<ClientHandle>,
    client_id: u128,
    handle: ClientHandle,
)
    requires
        arena.alive(handle),
    ensures
        occurrences(live_others(arena, clients, client_id), handle) == if arena.client(
            handle,
        ).spec_id() == client_id {
            0
        } else {
            occurrences(clients, handle)
        },
    decreases clients.len(),
{
    reveal(Seq::filter);
    if clients.len() > 0 {
        let rest = clients.drop_last();
        let last = clients.last();
        law_unsubscribe_isolation(arena, rest, client_id, handle);
        if arena.alive(last) && arena.client(last).spec_id() != client_id {
            assert(live_others(arena, clients, client_id) == live_others(
                arena,
                rest,
                client_id,
            ).push(last));
            assert(live_others(arena, rest, client_id).push(last).drop_last() =~= live_others(
                arena,
                rest,
                client_id,
            ));
        }
    }
}

/// Unsubscribing an identity that no subscriber of the topic has, while all of
/// them are alive, leaves the table as it was.
pub proof fn law_unsubscribe_stranger<T: Clone>(
    arena: &ClientArena<T>,
    table: Map<Seq<char>, Seq<ClientHandle>>,
    topic: Seq<char>,
    client_id: u128,
)
    requires
        table.dom().contains(topic),
        table[topic].len() > 0,
        forall|i: int|
            0 <= i < table[topic].len() ==> arena.alive(#[trigger] table[topic][i])
                && arena.client(table[topic][i]).spec_id() != client_id,
    ensures
        with_subscribers(table, topic, live_others(arena, table[topic], client_id)) == table,
{
    lemma_all_kept(arena, table[topic], client_id);
    assert(table.insert(topic, table[topic]) =~= table);
}

proof fn lemma_all_kept<T: Clone>(
    arena: &ClientArena<T>,
    clients: Seq<ClientHandle>,
    client_id: u128,
)
    requires
        forall|i: int|
            0 <= i < clients.len() ==> arena.alive(#[trigger] clients[i]) && arena.client(
                clients[i],
            ).spec_id() != client_id,
    ensures
        live_others(arena, clients, client_id) == clients,
    decreases clients.len(),
{
    reveal(Seq::filter);
    if clients.len() > 0 {
        let rest = clients.drop_last();
        assert forall|i: int| 0 <= i < rest.len() implies arena.alive(#[trigger] rest[i])
            && arena.client(rest[i]).spec_id() != client_id by {
            assert(rest[i] == clients[i]);
        }
        lemma_all_kept(arena, rest, client_id);
        assert(rest.push(clients.last()) =~= clients);
    } else {
        assert(live_others(arena, clients, client_id) =~= clients);
    }
}

/// A publish to a topic whose subscribers are all
/// dead takes the topic out of the table.
pub proof fn law_dead_subscribers_leave<T: Clone>(
    arena: &ClientArena<T>,
    table: Map<Seq<char>, Seq<ClientHandle>>,
    topic: Seq<char>,
)
    requires
        table.dom().contains(topic),
        forall|i: int| 0 <= i < table[topic].len() ==> !arena.alive(#[trigger] table[topic][i]),
    ensures
        with_subscribers(table, topic, live(arena, table[topic])) == table.remove(topic),
        !with_subscribers(table, topic, live(arena, table[topic])).dom().contains(topic),
{
    lemma_none_kept(arena, table[topic]);
}

proof fn lemma_none_kept<T: Clone>(arena: &ClientArena<T>, clients: Seq<ClientHandle>)
    requires
        forall|i: int| 0 <= i < clients.len() ==> !arena.alive(#[trigger] clients[i]),
    ensures
        live(arena, clients).len() == 0,
    decreases clients.len(),
{
    reveal(Seq::filter);
    if clients.len() > 0 {
        let rest = clients.drop_last();
        assert forall|i: int| 0 <= i < rest.len() implies !arena.alive(#[trigger] rest[i]) by {
            assert(rest[i] == clients[i]);
        }
        lemma_none_kept(arena, rest);
        assert(!arena.alive(clients[clients.len() - 1]));
    }
}

/// Subscribe, then publish: the mailbox that was subscribed holds a clone of
/// the message as its newest one, and where it was empty and is subscribed
/// this once, the clone is the one message that it holds, so the one that the
/// next take hands out.
pub proof fn law_subscriber_receives<T: Clone>(
    table: Map<Seq<char>, Seq<ClientHandle>>,
    arena: &ClientArena<T>,
    topic: Seq<char>,
    handle: ClientHandle,
    message: T,
    table_after: Map<Seq<char>, Seq<ClientHandle>>,
    arena_after: &ClientArena<T>,
)
    requires
        arena.wf(),
        arena.alive(handle),
        arena.client(handle).capacity() > 0,
        published(
            table.insert(topic, subscribed(table, topic).push(handle)),
            arena,
            topic,
            message,
            table_after,
            arena_after,
        ),
    ensures
        arena_after.alive(handle),
        table_after.dom().contains(topic) && table_after[topic].contains(handle),
        arena_after.client(handle).queue().len() > 0,
        cloned(message, arena_after.client(handle).queue().last()),
        arena.client(handle).queue().len() == 0 && !subscribed(table, topic).contains(handle)
            ==> match oldest(arena_after.client(handle).queue()) {
            Some(first) => cloned(message, first) && without_oldest(
                arena_after.client(handle).queue(),
            ).len() == 0,
            None => false,
        },
{
    let before = subscribed(table, topic);
    let clients = before.push(handle);
    let listening = table.insert(topic, clients);
    assert(subscribed(listening, topic) == clients);
    assert(clients[clients.len() - 1] == handle);
    law_fan_out(arena, arena_after, clients, message, handle);
    lemma_live_keeps_the_living(arena, clients, handle);
    lemma_occurrences_counts(clients, handle);
    lemma_occurrences_counts(live(arena, clients), handle);
    if arena.client(handle).queue().len() == 0 && !before.contains(handle) {
        lemma_occurrences_push(before, handle, handle);
        lemma_occurrences_counts(before, handle);
        law_delivery(arena.client(handle), arena_after.client(handle), message);
    }
}

/// A handle that resolves stands among the live handles of a list as often as
/// it stands in the list.
pub proof fn lemma_live_keeps_the_living<T: Clone>(
    arena: &ClientArena<T>,
    clients: Seq<ClientHandle>,
    handle: ClientHandle,
)
    requires
        arena.alive(handle),
    ensures
        occurrences(live(arena, clients), handle) == occurrences(clients, handle),
    decreases clients.len(),
{
    reveal(Seq::filter);
    if clients.len() > 0 {
        let rest = clients.drop_last();
        let last = clients.last();
        lemma_live_keeps_the_living(arena, rest, handle);
        assert(rest.push(last) =~= clients);
        lemma_live_push(arena, rest, last);
        lemma_occurrences_push(rest, last, handle);
        if arena.alive(last) {
            lemma_occurrences_push(live(arena, rest), last, handle);
        }
    }
}

/// Unsubscribe, then publish: no mailbox with the identity that was
/// unsubscribed receives the message, and a live subscriber with another
/// identity that can hold a message receives it.
pub proof fn law_unsubscribed_is_left_out<T: Clone>(
    table: Map<Seq<char>, Seq<ClientHandle>>,
    arena: &ClientArena<T>,
    topic: Seq<char>,
    client_id: u128,
    message: T,
    table_after: Map<Seq<char>, Seq<ClientHandle>>,
    arena_after: &ClientArena<T>,
    handle: ClientHandle,
)
    requires
        arena.wf(),
        arena.alive(handle),
        table.dom().contains(topic),
        published(
            with_subscribers(table, topic, live_others(arena, table[topic], client_id)),
            arena,
            topic,
            message,
            table_after,
            arena_after,
        ),
    ensures
        arena_after.alive(handle),
        arena.client(handle).spec_id() == client_id ==> arena_after.client(handle).queue()
            == arena.client(handle).queue(),
        arena.client(handle).spec_id() != client_id && table[topic].contains(handle)
            && arena.client(handle).capacity() > 0 ==> {
            &&& arena_after.client(handle).queue().len() > 0
            &&& cloned(message, arena_after.client(handle).queue().last())
        },
{
    let kept = live_others(arena, table[topic], client_id);
    let left = with_subscribers(table, topic, kept);
    law_unsubscribe_isolation(arena, table[topic], client_id, handle);
    lemma_occurrences_counts(kept, handle);
    lemma_occurrences_counts(table[topic], handle);
    lemma_occurrences_counts(Seq::<ClientHandle>::empty(), handle);
    assert(subscribed(left, topic) == if kept.len() == 0 {
        Seq::<ClientHandle>::empty()
    } else {
        kept
    });
    law_fan_out(arena, arena_after, subscribed(left, topic), message, handle);
}

/// One mailbox under two topics: an empty mailbox with room for two that is
/// the one subscriber of each of two topics, and that a message was published
/// to under the first and then another under the second, holds a clone of the
/// first in front of a clone of the second.
pub proof fn law_topics_arrive_in_order<T: Clone>(
    table: Map<Seq<char>, Seq<ClientHandle>>,
    arena: &ClientArena<T>,
    first_topic: Seq<char>,
    second_topic: Seq<char>,
    handle: ClientHandle,
    first: T,
    second: T,
    table_between: Map<Seq<char>, Seq<ClientHandle>>,
    arena_between: &ClientArena<T>,
    table_after: Map<Seq<char>, Seq<ClientHandle>>,
    arena_after: &ClientArena<T>,
)
    requires
        arena.wf(),
        arena.alive(handle),
        arena.client(handle).queue().len() == 0,
        arena.client(handle).capacity() >= 2,
        first_topic != second_topic,
        !table.dom().contains(first_topic),
        !table.dom().contains(second_topic),
        published(
            table.insert(first_topic, seq![handle]).insert(second_topic, seq![handle]),
            arena,
            first_topic,
            first,
            table_between,
            arena_between,
        ),
        published(table_between, arena_between, second_topic, second, table_after, arena_after),
    ensures
        arena_after.alive(handle),
        arena_after.client(handle).queue().len() == 2,
        cloned(first, arena_after.client(handle).queue()[0]),
        cloned(second, arena_after.client(handle).queue()[1]),
{
    let one = seq![handle];
    let none = Seq::<ClientHandle>::empty();
    let listening = table.insert(first_topic, one).insert(second_topic, one);
    assert(none.push(handle) =~= one);
    lemma_occurrences_push(none, handle, handle);
    lemma_occurrences_counts(none, handle);
    lemma_live_keeps_the_living(arena, one, handle);
    lemma_occurrences_counts(live(arena, one), handle);
    assert(subscribed(listening, first_topic) == one);
    assert(table_between.dom().contains(second_topic) && table_between[second_topic] == one);
    assert(subscribed(table_between, second_topic) == one);
    assert(received(arena.client(handle), arena_between.client(handle), 1, first));
    assert(arena_between.alive(handle));
    assert(received(arena_between.client(handle), arena_after.client(handle), 1, second));
    law_arrival_order(
        arena.client(handle),
        arena_between.client(handle),
        arena_after.client(handle),
        first,
        second,
    );
}

/// A handle that the arena gave out and that is dead stays dead: neither a
/// new mailbox nor the removal of another brings it back.
pub proof fn law_dead_stays_dead<T: Clone>(
    arena: &ClientArena<T>,
    handle: ClientHandle,
    client: Client<T>,
    removed: ClientHandle,
)
    requires
        0 <= handle.index() < arena@.len(),
        !arena.alive(handle),
    ensures
        !alive_in(arena@.push(Some(client)), handle),
        0 <= removed.index() < arena@.len() ==> !alive_in(
            arena@.update(removed.index(), None),
            handle,
        ),
{
}

/// The handle resolves among `slots`.
pub open spec fn alive_in<T: Clone>(slots: Seq<Option<Client<T>>>, handle: ClientHandle) -> bool {
    0 <= handle.index() < slots.len() && slots[handle.index()] is Some
}

/// Two peeks at one queue agree on whether there is a
/// message, each hands out a clone of the oldest one, and that oldest one is
/// what the next take removes.
pub proof fn law_peek_idempotent<T: Clone>(queue: Seq<T>, first: Option<T>, second: Option<T>)
    requires
        is_copy_of_oldest(queue, first),
        is_copy_of_oldest(queue, second),
    ensures
        first is Some <==> second is Some,
        first is Some <==> oldest(queue) is Some,
        first is Some ==> cloned(oldest(queue)->0, first->0) && cloned(
            oldest(queue)->0,
            second->0,
        ),
        oldest(queue) is Some ==> queue == seq![oldest(queue)->0] + without_oldest(queue),
{
    if queue.len() > 0 {
        assert(queue =~= seq![queue[0]] + queue.subrange(1, queue.len() as int));
    }
}

} // verus!
