use editor_core::broker::arena::ClientArena;
use editor_core::broker::broker::Broker;
use editor_core::connection::client::WidgetClient;
use editor_core::editor::app::{BackendConnectionStrategy, FileSystemTag, RecentEntry, Theme};
use editor_core::editor::filesystem::{
    publish_folder_result, publish_system_result, FileSystemClient, FileSystemRequest,
};
use editor_core::editor::notification::NotificationClient;
use editor_core::editor::rpc::{publish_result, ConnectionState, Rpc};
use editor_core::editor::server::{
    execute_command, receive_rpc_messages, Read, Step, RETRY_INTERVAL_MILLIS,
};
use editor_core::rpc::client::{RpcClient, WsEvent, WsMessage};
use editor_core::rpc::contract::{
    Command, Error, Message as Request, Response, RpcMessage, RpcResult,
};
use editor_core::rpc::executor::RpcExecutor;
use editor_core::widget::contract::Message;
use editor_core::widget::filesystem::{
    FileSystemCommand, FileSystemMessage, FileSystemResult, FilesystemError,
};

#[test]
fn topics_of_the_contract() {
    assert_eq!(Message::empty_topic(), "");
    assert_eq!(Message::rpc_command_topic(), "rpc/command");
    assert_eq!(Message::rpc_result_topic("abc123"), "rpc/abc123/result");
    assert_eq!(Message::file_system_command_topic(), "file/command");
    assert_eq!(Message::file_system_result_topic("abc123"), "file/abc123/result");
    assert_eq!(Message::notify_topic(), "notify");
    assert_eq!(Message::rpc_result_topic(""), "rpc//result");
}

#[test]
fn topic_of_each_variant() {
    let id = "x".to_string();
    assert_eq!(Message::Empty.topic("7"), "");
    assert_eq!(
        Message::RpcCommand { id: id.clone(), command: Command::Example }.topic("7"),
        "rpc/command"
    );
    assert_eq!(
        Message::RpcResult { result: RpcResult::default() }.topic("7"),
        "rpc/7/result"
    );
    assert_eq!(
        Message::FileSystemCommand { id, command: FileSystemCommand::Nothing }.topic("7"),
        "file/command"
    );
    assert_eq!(
        Message::FileSystemResult { result: FileSystemResult::default() }.topic("7"),
        "file/7/result"
    );
    assert_eq!(Message::Notify { text: "hi".to_string() }.topic("7"), "notify");
}

#[test]
fn defaults_of_the_vocabulary() {
    assert_eq!(Message::default(), Message::Empty);
    assert_eq!(Command::default(), Command::Example);
    assert_eq!(RpcMessage::default(), RpcMessage::Empty);
    assert_eq!(RpcResult::default(), RpcResult::Success(RpcMessage::Empty));
    assert_eq!(Error::default(), Error::Empty);
    assert_eq!(Request::default(), Request { id: String::new(), command: Command::Example });
    assert_eq!(
        Response::default(),
        Response { id: String::new(), result: RpcResult::Success(RpcMessage::Empty) }
    );
    assert_eq!(FileSystemCommand::default(), FileSystemCommand::Nothing);
    assert_eq!(FileSystemResult::default(), FileSystemResult::Success(FileSystemMessage::Empty));
    assert_eq!(FileSystemMessage::default(), FileSystemMessage::Empty);
    assert_eq!(FilesystemError::default(), FilesystemError::Nothing);
    assert_eq!(BackendConnectionStrategy::default(), BackendConnectionStrategy::Internal);
    assert_eq!(Theme::default(), Theme::Dark);
    assert_eq!(FileSystemTag::default().to_string(), "Project");
}

#[test]
fn result_value_is_success() {
    let value = RpcMessage::ClientId { id: "c1".to_string() };
    assert_eq!(RpcResult::value(value.clone()), RpcResult::Success(value));
    assert_eq!(
        RpcResult::value(RpcMessage::ConnectionStatus { connected: true }),
        RpcResult::Success(RpcMessage::ConnectionStatus { connected: true })
    );
}

#[test]
fn executor_is_total() {
    let mut executor = RpcExecutor;
    assert_eq!(
        executor.execute(&"any".to_string(), Command::Example),
        RpcResult::Success(RpcMessage::Empty)
    );
}

#[test]
fn recent_entry_keeps_name_and_path() {
    let entry = RecentEntry::new("Untitled", "/tmp/project.bin");
    assert_eq!(entry.name(), "Untitled");
    assert_eq!(entry.path(), "/tmp/project.bin");
    assert_eq!(entry, RecentEntry::new("Untitled", "/tmp/project.bin"));
}

#[test]
fn server_answers_under_the_id_of_the_request() {
    let mut executor = RpcExecutor;
    let response = execute_command("X".to_string(), &mut executor, Command::Example);
    assert_eq!(
        response,
        Response { id: "X".to_string(), result: RpcResult::Success(RpcMessage::Empty) }
    );
}

#[test]
fn server_steps() {
    let mut executor = RpcExecutor;
    let request = Request { id: "42".to_string(), command: Command::Example };
    assert_eq!(
        receive_rpc_messages(&mut executor, Read::Request(request)),
        Step::Respond(Response {
            id: "42".to_string(),
            result: RpcResult::Success(RpcMessage::Empty)
        })
    );
    assert_eq!(receive_rpc_messages(&mut executor, Read::Undecodable), Step::Continue);
    assert_eq!(receive_rpc_messages(&mut executor, Read::Ignored), Step::Continue);
    assert_eq!(
        receive_rpc_messages(&mut executor, Read::Failed),
        Step::Retry { millis: 1000 }
    );
    assert_eq!(RETRY_INTERVAL_MILLIS, 1000);
}

#[test]
fn remote_client_queues_requests_in_order() {
    let mut client = RpcClient::new();
    assert!(client.take_outgoing().is_empty());
    client.send("a".to_string(), Command::Example);
    client.send("b".to_string(), Command::Example);
    assert_eq!(
        client.take_outgoing(),
        vec![
            Request { id: "a".to_string(), command: Command::Example },
            Request { id: "b".to_string(), command: Command::Example },
        ]
    );
    assert!(client.take_outgoing().is_empty());
}

#[test]
fn remote_client_receives_one_frame_per_call() {
    let mut client = RpcClient::new();
    assert_eq!(client.receive(), None);
    client.handle_event(WsEvent::Opened);
    client.handle_event(WsEvent::Message(WsMessage::Text("hello".to_string())));
    client.handle_event(WsEvent::Message(WsMessage::Binary(vec![1, 2, 3])));
    client.handle_event(WsEvent::Message(WsMessage::Ping(vec![9])));
    client.handle_event(WsEvent::Message(WsMessage::Binary(vec![4, 5])));
    client.handle_event(WsEvent::Error("oops".to_string()));
    assert_eq!(client.receive(), Some(vec![1, 2, 3]));
    assert_eq!(client.receive(), Some(vec![4, 5]));
    assert_eq!(client.receive(), None);
    client.handle_event(WsEvent::Message(WsMessage::Pong(vec![])));
    client.handle_event(WsEvent::Message(WsMessage::Unknown("?".to_string())));
    client.handle_event(WsEvent::Closed);
    assert_eq!(client.receive(), None);
    client.handle_event(WsEvent::Message(WsMessage::Binary(vec![])));
    assert_eq!(client.receive(), Some(vec![]));
}

#[test]
fn connection_state_machine() {
    let mut clients = ClientArena::new();
    let mut rpc = Rpc::new(&mut clients);
    assert_eq!(rpc.state(), ConnectionState::Disconnected);
    assert!(!rpc.has_connected());
    assert!(!rpc.client_available());
    assert_eq!(rpc.connection_strategy(), BackendConnectionStrategy::Internal);

    rpc.begin_connect();
    assert_eq!(rpc.state(), ConnectionState::Connecting);
    rpc.connect(false);
    assert_eq!(rpc.state(), ConnectionState::Disconnected);
    assert!(!rpc.has_connected());
    assert!(!rpc.client_available());

    rpc.begin_connect();
    rpc.connect(true);
    assert_eq!(rpc.state(), ConnectionState::Connected);
    assert!(rpc.has_connected());
    assert!(rpc.client_available());

    rpc.begin_connect();
    assert_eq!(rpc.state(), ConnectionState::Connected);
    rpc.connect(false);
    assert_eq!(rpc.state(), ConnectionState::Connected);
    assert!(rpc.client_available());

    rpc.set_connection_strategy(&BackendConnectionStrategy::Remote);
    assert_eq!(rpc.connection_strategy(), BackendConnectionStrategy::Remote);
}

#[test]
fn local_strategy_round_trip() {
    let mut clients = ClientArena::new();
    let mut broker = Broker::new();
    let mut rpc = Rpc::new(&mut clients);
    let mut widget = WidgetClient::new(&mut clients);
    let mut other = WidgetClient::new(&mut clients);

    rpc.update(&mut broker, &mut clients, None);
    widget.update(&mut broker, &clients);
    other.update(&mut broker, &clients);
    assert!(broker.has_topic("rpc/command"));
    assert!(broker.has_topic(&format!("rpc/{}/result", widget.frontend_id())));
    assert!(broker.has_topic(&format!("file/{}/result", widget.frontend_id())));

    widget.publish_rpc_command(&mut broker, &mut clients, Command::Example);
    rpc.update(&mut broker, &mut clients, None);

    assert_eq!(
        widget.peek_message(&clients),
        Some(Message::RpcResult { result: RpcResult::Success(RpcMessage::Empty) })
    );
    assert_eq!(widget.next_rpc_message(&mut clients), Some(RpcMessage::Empty));
    assert_eq!(widget.next_message(&mut clients), None);
    assert_eq!(other.next_message(&mut clients), None);
}

#[test]
fn remote_strategy_round_trip() {
    let mut clients = ClientArena::new();
    let mut broker = Broker::new();
    let mut rpc = Rpc::new(&mut clients);
    rpc.set_connection_strategy(&BackendConnectionStrategy::Remote);
    rpc.connect(true);
    let mut widget = WidgetClient::new(&mut clients);
    let mut other = WidgetClient::new(&mut clients);
    rpc.update(&mut broker, &mut clients, None);
    widget.update(&mut broker, &clients);
    other.update(&mut broker, &clients);

    // The client sends the command under the id of the widget.
    widget.publish_rpc_command(&mut broker, &mut clients, Command::Example);
    rpc.update(&mut broker, &mut clients, None);
    let outgoing = rpc.take_outgoing();
    let id = widget.frontend_id().to_string();
    assert_eq!(outgoing, vec![Request { id: id.clone(), command: Command::Example }]);
    assert_eq!(widget.next_message(&mut clients), None);

    // The server executes it and answers under the same id.
    let mut executor = RpcExecutor;
    let mut responses = Vec::new();
    for request in outgoing {
        match receive_rpc_messages(&mut executor, Read::Request(request)) {
            Step::Respond(response) => responses.push(response),
            step => panic!("no response: {step:?}"),
        }
    }
    assert_eq!(responses.len(), 1);
    assert_eq!(responses[0].id, id);

    // The response is routed to the result topic of the id, and only there.
    let response = responses.pop();
    rpc.update(&mut broker, &mut clients, response);
    assert_eq!(other.next_message(&mut clients), None);
    assert_eq!(
        widget.next_message(&mut clients),
        Some(Message::RpcResult { result: RpcResult::Success(RpcMessage::Empty) })
    );
    assert_eq!(widget.next_message(&mut clients), None);
}

#[test]
fn remote_strategy_without_connection_drops_commands() {
    let mut clients = ClientArena::new();
    let mut broker = Broker::new();
    let mut rpc = Rpc::new(&mut clients);
    rpc.set_connection_strategy(&BackendConnectionStrategy::Remote);
    let mut widget = WidgetClient::new(&mut clients);
    rpc.update(&mut broker, &mut clients, None);
    widget.update(&mut broker, &clients);
    widget.publish_rpc_command(&mut broker, &mut clients, Command::Example);
    let stray = Response { id: widget.frontend_id().to_string(), result: RpcResult::default() };
    rpc.update(&mut broker, &mut clients, Some(stray));
    assert!(rpc.take_outgoing().is_empty());
    assert_eq!(widget.next_message(&mut clients), None);
}

#[test]
fn rpc_frames_pass_through_the_client() {
    let mut clients = ClientArena::new();
    let mut rpc = Rpc::new(&mut clients);
    rpc.handle_event(WsEvent::Message(WsMessage::Binary(vec![7])));
    assert_eq!(rpc.receive(), None);
    rpc.connect(true);
    rpc.handle_event(WsEvent::Opened);
    rpc.handle_event(WsEvent::Message(WsMessage::Binary(vec![7])));
    assert_eq!(rpc.receive(), Some(vec![7]));
    assert_eq!(rpc.receive(), None);
}

#[test]
fn publish_result_reaches_the_subscriber_of_the_id() {
    let mut clients = ClientArena::new();
    let mut broker = Broker::new();
    let x = clients.insert(editor_core::broker::client::Client::new());
    let y = clients.insert(editor_core::broker::client::Client::new());
    broker.subscribe("rpc/X/result", &x);
    broker.subscribe("rpc/Y/result", &y);
    let result = RpcResult::Error(Error::Timeout);
    publish_result(&mut broker, &mut clients, "X", result.clone());
    assert_eq!(clients.next_message(&x), Some(Message::RpcResult { result }));
    assert_eq!(clients.next_message(&y), None);
}

#[test]
fn widget_learns_its_client_id() {
    let mut clients = ClientArena::new();
    let mut broker = Broker::new();
    let mut widget = WidgetClient::new(&mut clients);
    assert!(!widget.has_connected());
    assert_eq!(widget.id(), None);
    widget.update(&mut broker, &clients);
    let id = widget.frontend_id().to_string();
    publish_result(
        &mut broker,
        &mut clients,
        &id,
        RpcResult::value(RpcMessage::ClientId { id: "backend-7".to_string() }),
    );
    widget.update(&mut broker, &clients);
    assert!(widget.has_connected());
    assert_eq!(widget.id(), Some(&"backend-7".to_string()));
    assert_eq!(
        widget.next_rpc_message(&mut clients),
        Some(RpcMessage::ClientId { id: "backend-7".to_string() })
    );
}

#[test]
fn widget_correlation_id_is_a_hyphenated_uuid() {
    let mut clients = ClientArena::new();
    let a = WidgetClient::new(&mut clients);
    let b = WidgetClient::new(&mut clients);
    let id = a.frontend_id();
    assert_eq!(id.len(), 36);
    let dashes: Vec<usize> = id.match_indices('-').map(|(at, _)| at).collect();
    assert_eq!(dashes, vec![8, 13, 18, 23]);
    assert_eq!(&id[14..15], "4");
    assert!(id.chars().all(|c| c == '-' || c.is_ascii_digit() || ('a'..='f').contains(&c)));
    assert_ne!(a.frontend_id(), b.frontend_id());
}

#[test]
fn next_rpc_message_leaves_other_messages() {
    let mut clients = ClientArena::new();
    let mut broker = Broker::new();
    let mut widget = WidgetClient::new(&mut clients);
    widget.update(&mut broker, &clients);
    let id = widget.frontend_id().to_string();
    publish_result(&mut broker, &mut clients, &id, RpcResult::Error(Error::Connection));
    assert_eq!(widget.next_rpc_message(&mut clients), None);
    assert_eq!(widget.next_filesystem_message(&mut clients), None);
    assert_eq!(
        widget.next_message(&mut clients),
        Some(Message::RpcResult { result: RpcResult::Error(Error::Connection) })
    );
    assert_eq!(widget.next_rpc_message(&mut clients), None);
}

#[test]
fn file_commands_reach_the_file_client() {
    let mut clients = ClientArena::new();
    let mut broker = Broker::new();
    let mut files = FileSystemClient::new(&mut clients);
    let mut widget = WidgetClient::new(&mut clients);
    assert!(files.update(&mut broker, &mut clients).is_empty());
    widget.update(&mut broker, &clients);
    let id = widget.frontend_id().to_string();

    widget.pick_file(&mut broker, &mut clients, "Project", &["bin", "json"], "Project");
    widget.publish_file_command(&mut broker, &mut clients, FileSystemCommand::Nothing);
    widget.pick_directory(&mut broker, &mut clients, "dir");
    widget.save_file(&mut broker, &mut clients, vec![1, 2, 3]);
    widget.publish_rpc_command(&mut broker, &mut clients, Command::Example);

    let requests = files.update(&mut broker, &mut clients);
    assert_eq!(
        requests,
        vec![
            FileSystemRequest {
                id: id.clone(),
                command: FileSystemCommand::PickFile {
                    tag: "Project".to_string(),
                    filter_name: "Project".to_string(),
                    extensions: vec!["bin".to_string(), "json".to_string()],
                },
            },
            FileSystemRequest {
                id: id.clone(),
                command: FileSystemCommand::PickFolder { tag: "dir".to_string() },
            },
            FileSystemRequest {
                id: id.clone(),
                command: FileSystemCommand::SaveFile { bytes: vec![1, 2, 3] },
            },
        ]
    );
    assert!(files.update(&mut broker, &mut clients).is_empty());

    publish_system_result(&mut broker, &mut clients, &id, "/tmp/a.bin", vec![9, 8], "Project");
    publish_folder_result(&mut broker, &mut clients, &id, "/tmp", "dir");
    assert_eq!(
        widget.next_filesystem_message(&mut clients),
        Some(FileSystemMessage::File {
            path: "/tmp/a.bin".to_string(),
            bytes: vec![9, 8],
            tag: "Project".to_string(),
        })
    );
    assert_eq!(widget.next_rpc_message(&mut clients), None);
    assert_eq!(
        widget.next_filesystem_message(&mut clients),
        Some(FileSystemMessage::Folder { path: "/tmp".to_string(), tag: "dir".to_string() })
    );
    assert_eq!(widget.next_filesystem_message(&mut clients), None);
}

#[test]
fn notifications_reach_the_notification_client() {
    let mut clients = ClientArena::new();
    let mut broker = Broker::new();
    let mut notifications = NotificationClient::new(&mut clients);
    let widget = WidgetClient::new(&mut clients);
    widget.notify(&mut broker, &mut clients, "too early");
    assert!(notifications.ui(&mut broker, &mut clients).is_empty());
    widget.notify(&mut broker, &mut clients, "Published RPC command!");
    widget.publish_rpc_command(&mut broker, &mut clients, Command::Example);
    widget.notify(&mut broker, &mut clients, "again");
    assert_eq!(
        notifications.ui(&mut broker, &mut clients),
        vec!["Published RPC command!".to_string(), "again".to_string()]
    );
    assert!(notifications.ui(&mut broker, &mut clients).is_empty());
}
