use eclipse_core::callback::{Callback, Report};
use eclipse_core::chat::{ChatManager, TurnRequest};

fn send(chat: &mut ChatManager, message: &str) -> Option<TurnRequest> {
    chat.send_message(
        message.to_string(),
        "helper".to_string(),
        "/work".to_string(),
        8080,
        "secret".to_string(),
    )
}

fn system(target: u64, text: &str) -> Option<Report> {
    Some(Report { target, callbacks: vec![Callback::System(text.to_string())] })
}

#[test]
fn a_message_is_dropped_where_nobody_listens() {
    let mut chat = ChatManager::new();
    assert!(send(&mut chat, "hi").is_none());
    assert_eq!(chat.reset_session(), None);
    assert_eq!(chat.emit_system("x"), None);
    assert_eq!(chat.is_cancelled(1), None);
}

#[test]
fn a_turn_carries_what_it_needs() {
    let mut chat = ChatManager::new();
    chat.register_callbacks(3);
    let turn = send(&mut chat, "hi").unwrap();
    assert_eq!(turn.target, 3);
    assert_eq!(turn.message, "hi");
    assert_eq!(turn.program, "helper");
    assert_eq!(turn.workspace_root, "/work");
    assert_eq!(turn.mcp_port, 8080);
    assert_eq!(turn.mcp_auth_token, "secret");
    assert!(!turn.has_session);
    let command = turn.command(&vec![]);
    assert_eq!(command.args[1], "hi");
    assert_eq!(command.args.len(), 5);
    assert_eq!(command.env.len(), 4);
}

#[test]
fn only_one_turn_runs_at_a_time() {
    let mut chat = ChatManager::new();
    chat.register_callbacks(3);
    assert!(send(&mut chat, "one").is_some());
    assert!(send(&mut chat, "two").is_none());
    chat.finish_turn(false);
    assert!(send(&mut chat, "three").is_some());
}

#[test]
fn a_conversation_is_continued_after_success() {
    let mut chat = ChatManager::new();
    chat.register_callbacks(3);
    assert!(!send(&mut chat, "one").unwrap().has_session);
    chat.finish_turn(false);
    assert!(!send(&mut chat, "two").unwrap().has_session);
    chat.finish_turn(true);
    let turn = send(&mut chat, "three").unwrap();
    assert!(turn.has_session);
    assert_eq!(turn.command(&vec![]).args.last().unwrap(), "-c");
    chat.finish_turn(false);
    assert!(send(&mut chat, "four").unwrap().has_session);
}

#[test]
fn a_reset_starts_anew() {
    let mut chat = ChatManager::new();
    chat.register_callbacks(3);
    send(&mut chat, "one").unwrap();
    chat.finish_turn(true);
    let turn = send(&mut chat, "two").unwrap();
    assert_eq!(chat.is_cancelled(turn.token), Some(false));
    assert_eq!(chat.reset_session(), system(3, "Session reset."));
    assert_eq!(chat.is_cancelled(turn.token), Some(true));
    let next = send(&mut chat, "three").unwrap();
    assert!(!next.has_session);
    assert_eq!(chat.is_cancelled(next.token), Some(false));
    assert_eq!(chat.is_cancelled(turn.token), Some(true));
}

#[test]
fn cancelling_reaches_the_latest_turn_only() {
    let mut chat = ChatManager::new();
    chat.register_callbacks(3);
    chat.cancel();
    let first = send(&mut chat, "one").unwrap();
    assert_eq!(chat.is_cancelled(first.token), Some(false));
    chat.finish_turn(true);
    let second = send(&mut chat, "two").unwrap();
    assert_ne!(first.token, second.token);
    chat.cancel();
    assert_eq!(chat.is_cancelled(first.token), Some(false));
    assert_eq!(chat.is_cancelled(second.token), Some(true));
    assert_eq!(chat.is_cancelled(second.token + 1), None);
}

#[test]
fn a_late_end_of_an_old_turn_frees_the_chat() {
    let mut chat = ChatManager::new();
    chat.register_callbacks(3);
    send(&mut chat, "one").unwrap();
    chat.reset_session();
    send(&mut chat, "two").unwrap();
    chat.finish_turn(true);
    assert!(send(&mut chat, "three").unwrap().has_session);
}

#[test]
fn a_turn_keeps_the_callbacks_it_was_started_with() {
    let mut chat = ChatManager::new();
    chat.register_callbacks(3);
    let turn = send(&mut chat, "one").unwrap();
    chat.register_callbacks(4);
    assert_eq!(turn.target, 3);
    assert_eq!(chat.emit_system("hello"), system(4, "hello"));
}
