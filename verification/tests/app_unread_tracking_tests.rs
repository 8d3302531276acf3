use ttyms::app::App;
use ttyms::models::Chat;
use ttyms::models::Message;

#[test]
fn update_total_unread() {
    let mut app = App::new();
    app.chats = vec![
        Chat {
            id: "c1".to_string(), topic: None, chat_type: "oneOnOne".to_string(),
            members: None, last_message_preview: None, unread_message_count: Some(3),
        },
        Chat {
            id: "c2".to_string(), topic: None, chat_type: "oneOnOne".to_string(),
            members: None, last_message_preview: None, unread_message_count: Some(2),
        },
        Chat {
            id: "c3".to_string(), topic: None, chat_type: "oneOnOne".to_string(),
            members: None, last_message_preview: None, unread_message_count: None,
        },
    ];
    app.update_total_unread();
    assert_eq!(app.total_unread, 5);
}

#[test]
fn detect_new_messages_first_time() {
    let mut app = App::new();
    app.messages = vec![Message {
        attachments: Vec::new(),
        id: "m1".to_string(), message_type: None, body: None,
        from: None, created_date_time: None, reactions: None,
    }];
    assert!(!app.detect_new_messages()); // First time is init
}

#[test]
fn detect_new_messages_returns_true_on_new() {
    let mut app = App::new();
    app.messages = vec![Message {
        attachments: Vec::new(),
        id: "m1".to_string(), message_type: None, body: None,
        from: None, created_date_time: None, reactions: None,
    }];
    app.detect_new_messages(); // Initialize

    app.messages.push(Message {
        attachments: Vec::new(),
        id: "m2".to_string(), message_type: None, body: None,
        from: None, created_date_time: None, reactions: None,
    });
    assert!(app.detect_new_messages());
}

#[test]
fn detect_new_messages_returns_false_when_same() {
    let mut app = App::new();
    app.messages = vec![Message {
        attachments: Vec::new(),
        id: "m1".to_string(), message_type: None, body: None,
        from: None, created_date_time: None, reactions: None,
    }];
    app.detect_new_messages();
    assert!(!app.detect_new_messages());
}
