use editor_core::broker::arena::ClientArena;
use editor_core::broker::broker::{Broker, TOPIC_NOT_FOUND};
use editor_core::broker::client::{Client, DEFAULT_RING_BUFFER_SIZE};

#[derive(Debug, Clone, PartialEq)]
pub struct Message {
    content: String,
}

impl Message {
    pub fn new(content: &str) -> Self {
        Self {
            content: content.to_string(),
        }
    }
}

#[test]
fn test_single_client_receive_message() {
    let mut clients = ClientArena::new();
    let mut broker = Broker::new();
    let client1 = clients.insert(Client::new());
    broker.subscribe("topic1", &client1);
    broker.publish(&mut clients, "topic1", Message::new("hello world"));
    assert_eq!(
        clients.next_message(&client1).unwrap().content,
        "hello world"
    );
}

#[test]
fn test_multiple_subscribers_receive_message() {
    let mut clients = ClientArena::new();
    let mut broker = Broker::new();
    let client1 = clients.insert(Client::new());
    let client2 = clients.insert(Client::new());
    broker.subscribe("topic1", &client1);
    broker.subscribe("topic1", &client2);
    broker.publish(&mut clients, "topic1", Message::new("hello world"));
    assert_eq!(
        clients.next_message(&client1).unwrap().content,
        "hello world"
    );
    assert_eq!(
        clients.next_message(&client2).unwrap().content,
        "hello world"
    );
}

#[test]
fn test_unsubscribe() {
    let mut clients = ClientArena::new();
    let mut broker = Broker::new();
    let client1 = clients.insert(Client::new());
    let client2 = clients.insert(Client::new());
    broker.subscribe("topic1", &client1);
    broker.subscribe("topic1", &client2);
    let id = clients.get(&client1).unwrap().id();
    broker.unsubscribe(&clients, "topic1", id).unwrap();
    broker.publish(&mut clients, "topic1", Message::new("hello world"));
    assert_eq!(clients.next_message(&client1), None);
    assert_eq!(
        clients.next_message(&client2).unwrap().content,
        "hello world"
    );
}

#[test]
fn test_multiple_topics() {
    let mut clients = ClientArena::new();
    let mut broker = Broker::new();
    let client = clients.insert(Client::new());
    broker.subscribe("topic1", &client);
    broker.subscribe("topic2", &client);
    broker.publish(&mut clients, "topic1", Message::new("hello topic1"));
    broker.publish(&mut clients, "topic2", Message::new("hello topic2"));
    assert_eq!(
        clients.next_message(&client).unwrap().content,
        "hello topic1"
    );
    assert_eq!(
        clients.next_message(&client).unwrap().content,
        "hello topic2"
    );
}

#[test]
fn test_ring_buffer() {
    let mut clients = ClientArena::new();
    let mut broker = Broker::new();
    let client = clients.insert(Client::with_ring_buffer_size(2)); // set ring buffer size to 2
    broker.subscribe("topic1", &client);
    broker.publish(&mut clients, "topic1", Message::new("message1"));
    broker.publish(&mut clients, "topic1", Message::new("message2"));
    broker.publish(&mut clients, "topic1", Message::new("message3"));
    // Expecting the oldest message to be discarded due to ring buffer
    assert_eq!(clients.next_message(&client).unwrap().content, "message2");
    assert_eq!(clients.next_message(&client).unwrap().content, "message3");
}

#[test]
fn usage_example() {
    // Create the arena that owns the mailboxes, and a new broker
    let mut clients = ClientArena::new();
    let mut broker = Broker::new();

    // Create a client with a specified ring buffer size
    let client = clients.insert(Client::with_ring_buffer_size(5));

    // Subscribe the client to a topic
    broker.subscribe("news", &client);

    // The broker publishes a message to the topic
    broker.publish(&mut clients, "news", Message::new("Breaking news!"));

    // The client retrieves the message from its ring buffer
    assert_eq!(
        clients.next_message(&client).unwrap().content,
        "Breaking news!"
    );
}

#[test]
fn test_weak_reference_cleanup() {
    let mut clients = ClientArena::new();
    let mut broker = Broker::new();

    // Subscribe a client to a topic
    {
        let client = clients.insert(Client::new());
        broker.subscribe("topic1", &client);

        // Ensure there's a subscriber for "topic1"
        assert!(broker.has_topic("topic1"));

        // Simulating a message publish
        broker.publish(&mut clients, "topic1", Message::new("Test"));

        // Ensure the client received the message
        assert_eq!(clients.next_message(&client).unwrap().content, "Test");

        // The owner lets go of the client
        assert!(clients.remove(&client).is_some());
    }

    // The handle to the client should not resolve now
    let subscribers = broker.subscribers("topic1");
    if broker.has_topic("topic1") {
        assert!(!clients.is_alive(&subscribers[0]));
    } else {
        panic!("Topic 'topic1' should still exist at this point.");
    }

    // Simulating another publish to trigger the cleanup
    broker.publish(&mut clients, "topic1", Message::new("Test 2"));

    // Check if the cleanup worked by checking the subscribers for "topic1"
    assert!(!broker.has_topic("topic1"));
}

#[test]
fn test_peek_message() {
    let mut clients = ClientArena::new();
    let mut broker = Broker::new();
    let client = clients.insert(Client::new());
    broker.subscribe("topic1", &client);
    broker.publish(&mut clients, "topic1", Message::new("peek this"));

    // Peek the message
    assert_eq!(clients.peek_message(&client).unwrap().content, "peek this");

    // Check if the message is still in the queue
    assert_eq!(clients.next_message(&client).unwrap().content, "peek this");

    // Ensure the message queue is now empty after calling `next_message`
    assert!(clients.next_message(&client).is_none());
}

#[test]
fn peek_twice_gives_the_same_message() {
    let mut clients = ClientArena::new();
    let mut broker = Broker::new();
    let client = clients.insert(Client::new());
    broker.subscribe("t", &client);
    broker.publish(&mut clients, "t", Message::new("first"));
    broker.publish(&mut clients, "t", Message::new("second"));
    let once = clients.peek_message(&client);
    let twice = clients.peek_message(&client);
    assert_eq!(once, Some(Message::new("first")));
    assert_eq!(once, twice);
    assert_eq!(clients.next_message(&client), Some(Message::new("first")));
    assert_eq!(clients.next_message(&client), Some(Message::new("second")));
    assert_eq!(clients.peek_message(&client), None);
}

#[test]
fn unsubscribe_from_unknown_topic_is_an_error() {
    let clients: ClientArena<Message> = ClientArena::new();
    let mut broker: Broker<Message> = Broker::new();
    assert_eq!(broker.unsubscribe(&clients, "nowhere", 7), Err("TopicNotFound"));
    assert_eq!(TOPIC_NOT_FOUND, "TopicNotFound");
    assert!(!broker.has_topic("nowhere"));
}

#[test]
fn unsubscribe_of_unknown_id_changes_nothing() {
    let mut clients = ClientArena::new();
    let mut broker = Broker::new();
    let client = clients.insert(Client::new());
    broker.subscribe("t", &client);
    let id = clients.get(&client).unwrap().id();
    assert_eq!(broker.unsubscribe(&clients, "t", id.wrapping_add(1)), Ok(()));
    assert_eq!(broker.subscribers("t"), vec![client]);
    broker.publish(&mut clients, "t", Message::new("still here"));
    assert_eq!(clients.next_message(&client), Some(Message::new("still here")));
}

#[test]
fn unsubscribe_of_last_subscriber_removes_the_topic() {
    let mut clients: ClientArena<Message> = ClientArena::new();
    let mut broker = Broker::new();
    let client = clients.insert(Client::new());
    broker.subscribe("t", &client);
    let id = clients.get(&client).unwrap().id();
    assert_eq!(broker.unsubscribe(&clients, "t", id), Ok(()));
    assert!(!broker.has_topic("t"));
    assert_eq!(broker.unsubscribe(&clients, "t", id), Err("TopicNotFound"));
}

#[test]
fn unsubscribe_drops_dead_handles() {
    let mut clients: ClientArena<Message> = ClientArena::new();
    let mut broker = Broker::new();
    let gone = clients.insert(Client::new());
    let stays = clients.insert(Client::new());
    broker.subscribe("t", &gone);
    broker.subscribe("t", &stays);
    clients.remove(&gone);
    let id = clients.get(&stays).unwrap().id();
    assert_eq!(broker.unsubscribe(&clients, "t", id.wrapping_add(1)), Ok(()));
    assert_eq!(broker.subscribers("t"), vec![stays]);
}

#[test]
fn publish_to_unknown_topic_does_nothing() {
    let mut clients = ClientArena::new();
    let mut broker = Broker::new();
    let client = clients.insert(Client::new());
    broker.subscribe("known", &client);
    broker.publish(&mut clients, "unknown", Message::new("lost"));
    assert_eq!(clients.next_message(&client), None);
    assert!(!broker.has_topic("unknown"));
    assert!(broker.has_topic("known"));
}

#[test]
fn double_subscription_delivers_twice() {
    let mut clients = ClientArena::new();
    let mut broker = Broker::new();
    let client = clients.insert(Client::new());
    broker.subscribe("t", &client);
    broker.subscribe("t", &client);
    assert_eq!(broker.subscribers("t"), vec![client, client]);
    broker.publish(&mut clients, "t", Message::new("twice"));
    assert_eq!(clients.next_message(&client), Some(Message::new("twice")));
    assert_eq!(clients.next_message(&client), Some(Message::new("twice")));
    assert_eq!(clients.next_message(&client), None);
}

#[test]
fn publish_drops_dead_and_keeps_live_subscribers() {
    let mut clients = ClientArena::new();
    let mut broker = Broker::new();
    let a = clients.insert(Client::new());
    let b = clients.insert(Client::new());
    let c = clients.insert(Client::new());
    broker.subscribe("t", &a);
    broker.subscribe("t", &b);
    broker.subscribe("t", &c);
    clients.remove(&b);
    broker.publish(&mut clients, "t", Message::new("m"));
    assert_eq!(broker.subscribers("t"), vec![a, c]);
    assert_eq!(clients.next_message(&a), Some(Message::new("m")));
    assert_eq!(clients.next_message(&b), None);
    assert_eq!(clients.next_message(&c), Some(Message::new("m")));
}

#[test]
fn dead_handle_stays_dead_when_the_arena_grows() {
    let mut clients: ClientArena<Message> = ClientArena::new();
    let first = clients.insert(Client::new());
    assert!(clients.is_alive(&first));
    assert!(clients.remove(&first).is_some());
    assert!(clients.remove(&first).is_none());
    let second = clients.insert(Client::new());
    assert!(!clients.is_alive(&first));
    assert!(clients.is_alive(&second));
    assert!(first != second);
    assert!(clients.get(&first).is_none());
    clients.push(&first, Message::new("nobody home"));
    assert_eq!(clients.peek_message(&first), None);
    assert_eq!(clients.next_message(&second), None);
}

#[test]
fn mailbox_defaults() {
    let client: Client<Message> = Client::new();
    assert_eq!(client.ring_buffer_size(), 100);
    assert_eq!(DEFAULT_RING_BUFFER_SIZE, 100);
    assert_eq!(client.event_queue().len(), 0);
    assert_eq!(client.peek_message(), None);
    let sized: Client<Message> = Client::with_ring_buffer_size(3);
    assert_eq!(sized.ring_buffer_size(), 3);
}

#[test]
fn mailbox_ids_are_random_version_four() {
    let a: Client<Message> = Client::new();
    let b: Client<Message> = Client::new();
    assert_eq!((a.id() >> 76) & 0xf, 4);
    assert_eq!((a.id() >> 62) & 0x3, 2);
    assert_eq!((b.id() >> 76) & 0xf, 4);
    assert_ne!(a.id(), b.id());
}

#[test]
fn mailbox_keeps_the_newest_messages() {
    let mut client = Client::with_ring_buffer_size(3);
    for n in 1..=5 {
        client.push(Message::new(&format!("m{n}")));
        assert!(client.event_queue().len() <= 3);
    }
    assert_eq!(client.next_message(), Some(Message::new("m3")));
    assert_eq!(client.next_message(), Some(Message::new("m4")));
    assert_eq!(client.next_message(), Some(Message::new("m5")));
    assert_eq!(client.next_message(), None);
}

#[test]
fn mailbox_of_capacity_zero_holds_nothing() {
    let mut client = Client::with_ring_buffer_size(0);
    client.push(Message::new("lost"));
    assert_eq!(client.event_queue().len(), 0);
    assert_eq!(client.next_message(), None);
}

#[test]
fn drain_empties_the_mailbox_in_order() {
    let mut clients = ClientArena::new();
    let client = clients.insert(Client::new());
    clients.push(&client, Message::new("a"));
    clients.push(&client, Message::new("b"));
    let drained: Vec<Message> = clients.drain(&client).into_iter().collect();
    assert_eq!(drained, vec![Message::new("a"), Message::new("b")]);
    assert_eq!(clients.next_message(&client), None);
    assert!(clients.is_alive(&client));
}
