use ttyms::models::Chat;

#[test]
fn unread_count_returns_value() {
    let chat = Chat {
        id: "c1".to_string(),
        topic: None,
        chat_type: "oneOnOne".to_string(),
        members: None,
        last_message_preview: None,
        unread_message_count: Some(5),
    };
    assert_eq!(chat.unread_count(), 5);
}

#[test]
fn unread_count_defaults_to_zero() {
    let chat = Chat {
        id: "c1".to_string(),
        topic: None,
        chat_type: "oneOnOne".to_string(),
        members: None,
        last_message_preview: None,
        unread_message_count: None,
    };
    assert_eq!(chat.unread_count(), 0);
}
