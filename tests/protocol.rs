use sg::broker::{Broker, BrokerError, Delivery, SessionState};
use sg::editor::recipes_reply;
use sg::protocol::{
    classify_fields, Request, RequestIds, ChatMessage, ChatSpeaker, Message, MessageKind, Notification, RequestMethods, Response,
    ResponseTypes, ServerInfo,
};
use sg::types::RecipeInfo;

// The three tests below keep their names from the message tests of the agent
// crate. Decoding a message's JSON shape is serde's work outside the library;
// what the library decides, and what they check, is which variant the message
// is, told from the fields it carries.
fn kind_of_json(text: &str) -> Option<MessageKind> {
    let value: serde_json::Value = serde_json::from_str(text).unwrap();
    classify_fields(value.get("id").is_some(), value.get("method").is_some())
}

#[test]
fn test_can_read_result() {
    let contents = r#"{"jsonrpc":"2.0","id":1,"result":{"name":"cody-agent"}}"#;
    let msg = kind_of_json(contents).expect("to read result");
    assert!(matches!(msg, MessageKind::Response))
}

#[test]
fn test_can_read_update_message() {
    let contents = r#"{"jsonrpc":"2.0","method":"chat/updateMessageInProgress","params":{"speaker":"assistant","contextFiles":[]}}"#;
    let msg = kind_of_json(contents).expect("to read update message");
    assert!(matches!(msg, MessageKind::Notification))
}

#[test]
fn test_can_read_null_result() {
    let contents = r#"{"jsonrpc":"2.0","id":1,"result":null}"#;
    let msg = kind_of_json(contents).expect("to read null result");
    assert!(matches!(msg, MessageKind::Response))
}

#[test]
fn classify_all_field_combinations() {
    assert_eq!(classify_fields(true, true), Some(MessageKind::Request));
    assert_eq!(classify_fields(true, false), Some(MessageKind::Response));
    assert_eq!(classify_fields(false, true), Some(MessageKind::Notification));
    assert_eq!(classify_fields(false, false), None);
}

#[test]
fn initialize_message_fields() {
    let mut ids = RequestIds::new();
    assert_eq!(ids.issue(), Some(0));
    match Message::initialize(&mut ids, "/work".to_string()).unwrap() {
        Message::Request(req) => {
            assert_eq!(req.id, 1);
            match req.params {
                RequestMethods::Initialize(info) => {
                    assert_eq!(info.name, "neovim");
                    assert_eq!(info.version, "v1");
                    assert_eq!(info.workspace_root_path, "/work");
                    assert!(info.connection_configuration.is_none());
                    assert!(info.capabilities.is_none());
                }
                _ => panic!("not initialize"),
            }
        }
        _ => panic!("not a request"),
    }
    assert_eq!(Message::new_request(&mut ids, RequestMethods::Shutdown).unwrap().kind(), MessageKind::Request);
    assert_eq!(ids.issue(), Some(3));
}

fn response(id: usize) -> Message {
    Message::Response(Response { id, result: ResponseTypes::ServerInfo(ServerInfo { name: format!("r{id}") }) })
}

#[test]
fn broker_requires_start() {
    let mut b = Broker::new();
    assert_eq!(b.state(), SessionState::Starting);
    assert_eq!(b.submit(RequestMethods::RecipesList).err(), Some(BrokerError::NotStarted));
    let init = b.start("/root".to_string()).unwrap();
    assert!(matches!(init, Message::Request(ref r) if r.id == 0));
    assert_eq!(b.state(), SessionState::Running);
    assert_eq!(b.start("/root".to_string()).err(), Some(BrokerError::AlreadyStarted));
}

#[test]
fn broker_delivers_each_response_to_its_own_waiter() {
    let mut b = Broker::new();
    b.start("/root".to_string()).unwrap();
    let ids: Vec<usize> = (0..3).map(|_| b.submit(RequestMethods::RecipesList).unwrap().id).collect();
    assert_eq!(ids, vec![1, 2, 3]);
    for id in [3usize, 1, 2] {
        match b.on_agent_message(response(id)) {
            Delivery::Deliver { waiter, response } => {
                assert_eq!(waiter, id);
                assert_eq!(response.id, id);
            }
            _ => panic!("response {id} was not delivered"),
        }
    }
    assert!(matches!(b.on_agent_message(response(2)), Delivery::Discard));
    assert!(matches!(b.on_agent_message(response(42)), Delivery::Discard));
}

#[test]
fn broker_forwards_notifications() {
    let mut b = Broker::new();
    b.start("/root".to_string()).unwrap();
    let note = Notification::UpdateChat(Some(ChatMessage {
        speaker: ChatSpeaker::Assistant,
        text: Some("hi".to_string()),
        display_text: None,
        context_files: None,
    }));
    match b.on_agent_message(Message::Notification(note)) {
        Delivery::Forward(Notification::UpdateChat(Some(m))) => assert_eq!(m.text.as_deref(), Some("hi")),
        _ => panic!("not forwarded"),
    }
    let agent_request = Message::Request(Request { id: 9, params: RequestMethods::Shutdown });
    assert!(matches!(b.on_agent_message(agent_request), Delivery::Discard));
}

#[test]
fn broker_releases_all_waiters_on_disconnect() {
    let mut b = Broker::new();
    b.start("/root".to_string()).unwrap();
    b.submit(RequestMethods::RecipesList).unwrap();
    b.submit(RequestMethods::Shutdown).unwrap();
    let mut released = b.on_end_of_stream();
    released.sort();
    assert_eq!(released, vec![0, 1, 2]);
    assert_eq!(b.state(), SessionState::Draining);
    assert_eq!(b.submit(RequestMethods::RecipesList).err(), Some(BrokerError::AgentDisconnected));
    assert!(matches!(b.on_agent_message(response(1)), Delivery::Discard));
    assert!(b.close().is_empty());
    assert_eq!(b.state(), SessionState::Closed);
}

#[test]
fn broker_close_releases_waiters() {
    let mut b = Broker::new();
    b.start("/root".to_string()).unwrap();
    b.submit(RequestMethods::RecipesList).unwrap();
    let mut released = b.close();
    released.sort();
    assert_eq!(released, vec![0, 1]);
    assert_eq!(b.start("/root".to_string()).err(), Some(BrokerError::AgentDisconnected));
}

#[test]
fn recipes_reply_matches_by_id() {
    let recipes = vec![RecipeInfo { id: "chat-question".to_string(), title: "Chat".to_string() }];
    let msg = Message::Response(Response { id: 4, result: ResponseTypes::Recipes(recipes.clone()) });
    let got = recipes_reply(4, msg.clone()).unwrap();
    assert_eq!(got[0].id, "chat-question");
    assert!(recipes_reply(5, msg).is_none());
    assert!(recipes_reply(4, response(4)).is_none());
    assert!(recipes_reply(4, Message::Response(Response { id: 4, result: ResponseTypes::Null })).is_none());
}

#[test]
fn broker_cancel_forgets_waiter() {
    let mut b = Broker::new();
    b.start("/root".to_string()).unwrap();
    let id = b.submit(RequestMethods::RecipesList).unwrap().id;
    assert!(b.cancel(id));
    assert!(!b.cancel(id));
    assert!(matches!(b.on_agent_message(response(id)), Delivery::Discard));
    let mut released = b.on_end_of_stream();
    released.sort();
    assert_eq!(released, vec![0]);
}

#[test]
fn request_ids_increase() {
    let mut ids = RequestIds::new();
    let a = Request::new(&mut ids, RequestMethods::RecipesList).unwrap();
    let b = Request::new(&mut ids, RequestMethods::Shutdown).unwrap();
    assert_eq!(a.id, 0);
    assert_eq!(b.id, 1);
    assert!(matches!(b.params, RequestMethods::Shutdown));
}
