use ttyms::models::ChatMessageReaction;
use ttyms::models::Message;
use ttyms::models::MessageBody;
use ttyms::models::MessageUser;
use ttyms::models::ReactionIdentitySet;
use ttyms::models::User;
use ttyms::models::reaction_emoji;

fn make_message_with_reactions(reactions: Vec<(&str, &str)>) -> Message {
    Message {
        attachments: Vec::new(),
        id: "msg-1".to_string(),
        message_type: Some("message".to_string()),
        body: Some(MessageBody {
            content: Some("Hello".to_string()),
            content_type: None,
        }),
        from: None,
        created_date_time: None,
        reactions: Some(
            reactions
                .into_iter()
                .map(|(rtype, uid)| ChatMessageReaction {
                    reaction_type: rtype.to_string(),
                    user: Some(ReactionIdentitySet {
                        user: Some(MessageUser {
                            display_name: Some("User".to_string()),
                            id: Some(uid.to_string()),
                        }),
                    }),
                })
                .collect(),
        ),
    }
}

#[test]
fn reactions_summary_counts_by_type() {
    let msg = make_message_with_reactions(vec![
        ("like", "u1"),
        ("like", "u2"),
        ("heart", "u1"),
    ]);
    let summary = msg.reactions_summary();
    assert_eq!(summary.len(), 2);
    // "like" should have count 2, "heart" count 1
    let like_count = summary.iter().find(|(e, _)| e == "👍").map(|(_, c)| *c);
    let heart_count = summary.iter().find(|(e, _)| e == "❤️").map(|(_, c)| *c);
    assert_eq!(like_count, Some(2));
    assert_eq!(heart_count, Some(1));
}

#[test]
fn reactions_summary_empty_when_no_reactions() {
    let msg = Message {
        attachments: Vec::new(),
        id: "msg".to_string(),
        message_type: None,
        body: None,
        from: None,
        created_date_time: None,
        reactions: None,
    };
    assert!(msg.reactions_summary().is_empty());
}

#[test]
fn reactions_summary_sorted_by_count_descending() {
    let msg = make_message_with_reactions(vec![
        ("heart", "u1"),
        ("like", "u1"),
        ("like", "u2"),
        ("like", "u3"),
    ]);
    let summary = msg.reactions_summary();
    assert_eq!(summary[0].1, 3); // like: 3
    assert_eq!(summary[1].1, 1); // heart: 1
}

#[test]
fn reaction_emoji_maps_known_types() {
    assert_eq!(reaction_emoji("like"), "👍");
    assert_eq!(reaction_emoji("heart"), "❤️");
    assert_eq!(reaction_emoji("laugh"), "😂");
    assert_eq!(reaction_emoji("surprised"), "😮");
    assert_eq!(reaction_emoji("sad"), "😢");
    assert_eq!(reaction_emoji("angry"), "😡");
}

#[test]
fn reaction_emoji_returns_unknown_type_as_is() {
    assert_eq!(reaction_emoji("custom"), "custom");
}
