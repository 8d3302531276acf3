use ttyms::models::Chat;
use ttyms::models::ChatMember;
use ttyms::models::MessageBody;
use ttyms::models::MessagePreview;

fn make_chat(
    topic: Option<&str>,
    members: Option<Vec<(&str, &str)>>,
    preview: Option<&str>,
) -> Chat {
    Chat {
        id: "chat-1".to_string(),
        topic: topic.map(String::from),
        chat_type: "oneOnOne".to_string(),
        members: members.map(|m| {
            m.into_iter()
                .map(|(name, id)| ChatMember {
                    id: None,
                    display_name: Some(name.to_string()),
                    user_id: Some(id.to_string()),
                })
                .collect()
        }),
        last_message_preview: preview.map(|p| MessagePreview {
            body: Some(MessageBody {
                content: Some(p.to_string()),
                content_type: None,
            }),
        }),
        unread_message_count: None,
    }
}

#[test]
fn display_name_uses_topic_when_present() {
    let chat = make_chat(Some("Project Discussion"), None, None);
    assert_eq!(chat.display_name("me"), "Project Discussion");
}

#[test]
fn display_name_uses_members_when_no_topic() {
    let chat = make_chat(
        None,
        Some(vec![("Me", "me"), ("Alice", "alice"), ("Bob", "bob")]),
        None,
    );
    assert_eq!(chat.display_name("me"), "Alice, Bob");
}

#[test]
fn display_name_skips_empty_topic() {
    let chat = make_chat(
        Some(""),
        Some(vec![("Me", "me"), ("Charlie", "charlie")]),
        None,
    );
    assert_eq!(chat.display_name("me"), "Charlie");
}

#[test]
fn display_name_fallback_when_no_topic_or_members() {
    let chat = make_chat(None, None, None);
    assert_eq!(chat.display_name("me"), "Chat");
}

#[test]
fn preview_text_strips_html() {
    let chat = make_chat(None, None, Some("<p>Hello <b>world</b></p>"));
    assert_eq!(chat.preview_text(), "Hello world");
}

#[test]
fn preview_text_empty_when_no_preview() {
    let chat = make_chat(None, None, None);
    assert_eq!(chat.preview_text(), "");
}
