use ttyms::app::App;
use ttyms::models::Chat;

fn make_test_chats(count: usize) -> Vec<Chat> {
    (0..count)
        .map(|i| Chat {
            id: format!("chat-{}", i),
            topic: Some(format!("Chat {}", i)),
            chat_type: "oneOnOne".to_string(),
            members: None,
            last_message_preview: None,
            unread_message_count: None,
        })
        .collect()
}

#[test]
fn select_next_chat_increments() {
    let mut app = App::new();
    app.chats = make_test_chats(5);
    assert_eq!(app.selected_chat, 0);
    app.select_next_chat();
    assert_eq!(app.selected_chat, 1);
    app.select_next_chat();
    assert_eq!(app.selected_chat, 2);
}

#[test]
fn select_next_chat_stops_at_end() {
    let mut app = App::new();
    app.chats = make_test_chats(3);
    app.selected_chat = 2;
    app.select_next_chat();
    assert_eq!(app.selected_chat, 2);
}

#[test]
fn select_prev_chat_decrements() {
    let mut app = App::new();
    app.chats = make_test_chats(5);
    app.selected_chat = 3;
    app.select_prev_chat();
    assert_eq!(app.selected_chat, 2);
}

#[test]
fn select_prev_chat_stops_at_zero() {
    let mut app = App::new();
    app.chats = make_test_chats(3);
    app.selected_chat = 0;
    app.select_prev_chat();
    assert_eq!(app.selected_chat, 0);
}

#[test]
fn select_next_noop_when_no_chats() {
    let mut app = App::new();
    app.select_next_chat();
    assert_eq!(app.selected_chat, 0);
}

#[test]
fn selected_chat_id_returns_correct_id() {
    let mut app = App::new();
    app.chats = make_test_chats(3);
    app.selected_chat = 1;
    assert_eq!(app.selected_chat_id(), Some("chat-1"));
}

#[test]
fn selected_chat_id_none_when_empty() {
    let app = App::new();
    assert_eq!(app.selected_chat_id(), None);
}

#[test]
fn selected_chat_name_returns_topic() {
    let mut app = App::new();
    app.chats = make_test_chats(3);
    app.selected_chat = 2;
    assert_eq!(app.selected_chat_name(), "Chat 2");
}

#[test]
fn selected_chat_name_fallback() {
    let app = App::new();
    assert_eq!(app.selected_chat_name(), "No chat selected");
}
