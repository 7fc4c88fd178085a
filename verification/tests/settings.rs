use editor_core::broker::arena::ClientArena;
use editor_core::broker::broker::Broker;
use editor_core::code_editor::editor::{CodeEditor, EditorLanguage};
use editor_core::connection::connect::ConnectionPanel;
use editor_core::editor::rpc::Rpc;
use editor_core::rpc::contract::{Command, RpcMessage};
use editor_core::widget::contract::Message;

#[test]
fn code_editor_settings() {
    let mut editor = CodeEditor::default();
    assert_eq!(editor.language(), "json");
    assert!(!editor.read_only());
    editor.set_read_only(true);
    assert!(editor.read_only());
    assert_eq!(editor.language(), "json");
    editor.set_language(EditorLanguage::Json);
    assert_eq!(editor.language(), "json");
    assert!(editor.read_only());
    assert_eq!(EditorLanguage::default(), EditorLanguage::Json);
    assert_eq!(EditorLanguage::Json.to_string(), "json");
}

#[test]
fn connection_panel_defaults() {
    let mut clients: ClientArena<Message> = ClientArena::new();
    let panel = ConnectionPanel::new(&mut clients);
    assert_eq!(panel.broker_address(), "0.0.0.0:9000");
    assert!(!panel.client().has_connected());
    assert_eq!(panel.client().frontend_id().len(), 36);
}

#[test]
fn connection_panel_round_trip() {
    let mut clients = ClientArena::new();
    let mut broker = Broker::new();
    let mut rpc = Rpc::new(&mut clients);
    let mut panel = ConnectionPanel::new(&mut clients);
    rpc.update(&mut broker, &mut clients, None);
    panel.update(&mut broker, &clients);
    assert!(broker.has_topic(&Message::rpc_result_topic(panel.client().frontend_id())));
    panel
        .client()
        .publish_rpc_command(&mut broker, &mut clients, Command::Example);
    rpc.update(&mut broker, &mut clients, None);
    assert_eq!(
        panel.client_mut().next_rpc_message(&mut clients),
        Some(RpcMessage::Empty)
    );
    assert_eq!(panel.client_mut().next_message(&mut clients), None);
}

#[test]
fn update_subscribes_only_once() {
    let mut clients = ClientArena::new();
    let mut broker = Broker::new();
    let mut rpc = Rpc::new(&mut clients);
    let mut panel = ConnectionPanel::new(&mut clients);
    for _ in 0..3 {
        rpc.update(&mut broker, &mut clients, None);
        panel.update(&mut broker, &clients);
    }
    assert_eq!(broker.subscribers("rpc/command").len(), 1);
    let topic = Message::rpc_result_topic(panel.client().frontend_id());
    assert_eq!(broker.subscribers(&topic).len(), 1);
    let topic = Message::file_system_result_topic(panel.client().frontend_id());
    assert_eq!(broker.subscribers(&topic).len(), 1);
}

#[test]
fn commands_published_before_the_first_update_are_lost() {
    let mut clients = ClientArena::new();
    let mut broker = Broker::new();
    let mut rpc = Rpc::new(&mut clients);
    let mut panel = ConnectionPanel::new(&mut clients);
    panel.update(&mut broker, &clients);
    panel
        .client()
        .publish_rpc_command(&mut broker, &mut clients, Command::Example);
    rpc.update(&mut broker, &mut clients, None);
    assert_eq!(panel.client_mut().next_message(&mut clients), None);
}

#[test]
fn command_queue_keeps_the_newest_hundred() {
    let mut clients = ClientArena::new();
    let mut broker = Broker::new();
    let mut rpc = Rpc::new(&mut clients);
    let mut panel = ConnectionPanel::new(&mut clients);
    rpc.update(&mut broker, &mut clients, None);
    panel.update(&mut broker, &clients);
    for _ in 0..150 {
        panel
            .client()
            .publish_rpc_command(&mut broker, &mut clients, Command::Example);
    }
    rpc.update(&mut broker, &mut clients, None);
    let mut results = 0;
    while panel.client_mut().next_rpc_message(&mut clients).is_some() {
        results += 1;
    }
    assert_eq!(results, 100);
}
