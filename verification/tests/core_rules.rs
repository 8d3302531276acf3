use ttyms::app::{App, BgResult, ViewMode};
use ttyms::auth::{
    authorize_url, compute_code_challenge, device_code_endpoint, exchange_outcome,
    generate_code_verifier, parse_auth_callback, parse_vault_metadata, percent_encode, poll_step,
    redirect_uri, refresh_outcome, select_stored, simple_url_decode, store_tier, token_decision,
    token_endpoint, token_from_vault, vault_metadata, vault_refresh_entry, verifier_from_bytes,
    AuthError, PollAction, PollReply, StoreTier, TokenDecision, TokenResponse,
};
use ttyms::auth::{unix_seconds, vault_entry_names, wipe_pattern};
use ttyms::client::{
    bearer, delta_url, messages_url, oldest_first, take_delta_page, DeltaStep, GraphClient,
};
use ttyms::clipboard::base64_encode;
use ttyms::config::{default_client_id, Config};
use ttyms::delta::{merge, time_no_later};
use ttyms::models::{
    parse_rich_text, strip_html, Channel, Chat, ChatMember, DeltaResponse, Message, MessageBody,
    MessageFrom, MessageUser, PagedResponse, RichSegment, SearchChatMessage, SearchEmailAddress,
    SearchFrom, SearchHit, Team,
};

fn token(expires_in: u64, obtained_at: u64, refresh: Option<&str>) -> TokenResponse {
    TokenResponse {
        access_token: "access".to_string(),
        refresh_token: refresh.map(String::from),
        expires_in,
        token_type: "Bearer".to_string(),
        obtained_at,
    }
}

fn message(id: &str, time: Option<&str>, text: &str) -> Message {
    Message {
        id: id.to_string(),
        message_type: Some("message".to_string()),
        body: Some(MessageBody { content: Some(text.to_string()), content_type: None }),
        from: None,
        created_date_time: time.map(String::from),
        reactions: None,
        attachments: Vec::new(),
    }
}

fn channel(id: &str, name: &str) -> Channel {
    Channel {
        id: id.to_string(),
        display_name: name.to_string(),
        description: None,
        membership_type: None,
    }
}

fn team(id: &str) -> Team {
    Team { id: id.to_string(), display_name: id.to_string(), description: None }
}

fn ids(v: &[Message]) -> Vec<&str> {
    v.iter().map(|m| m.id.as_str()).collect()
}

fn channel_ids(v: &[Channel]) -> Vec<&str> {
    v.iter().map(|c| c.id.as_str()).collect()
}

// ---- Expiry ----

#[test]
fn expiry_boundary_is_exact() {
    let t = token(3600, 1_000_000, None);
    assert!(!t.is_expired_at(1_000_000 + 3600 - 61));
    assert!(t.is_expired_at(1_000_000 + 3600 - 60));
    assert!(t.is_expired_at(1_000_000 + 3600));
}

#[test]
fn expiry_of_short_lived_token() {
    let t = token(30, 1000, None);
    assert!(t.is_expired_at(1000));
    assert!(t.is_expired_at(970));
    assert!(!t.is_expired_at(969));
}

#[test]
fn expiry_does_not_overflow() {
    let t = token(u64::MAX, u64::MAX, None);
    assert!(!t.is_expired_at(u64::MAX));
    let s = token(0, 0, None);
    assert!(s.is_expired_at(0));
    assert!(s.is_expired_at(u64::MAX));
}

#[test]
fn stamped_at_sets_only_the_time() {
    let t = token(3600, 0, Some("r")).stamped_at(42);
    assert_eq!(t.obtained_at, 42);
    assert_eq!(t.expires_in, 3600);
    assert_eq!(t.access_token, "access");
    assert_eq!(t.refresh_token.as_deref(), Some("r"));
}

#[test]
fn erase_empties_the_secrets() {
    let mut t = token(3600, 7, Some("refresh"));
    t.erase();
    assert_eq!(t.access_token, "");
    assert_eq!(t.refresh_token.as_deref(), Some(""));
    assert_eq!(t.expires_in, 3600);
    assert_eq!(t.obtained_at, 7);
}

#[test]
fn decision_for_each_cached_state() {
    assert_eq!(token_decision(&None, 100), TokenDecision::Authorize);
    assert_eq!(token_decision(&Some(token(3600, 100, None)), 200), TokenDecision::UseCached);
    assert_eq!(token_decision(&Some(token(3600, 100, Some("r"))), 5000), TokenDecision::Refresh);
    assert_eq!(token_decision(&Some(token(3600, 100, None)), 5000), TokenDecision::Authorize);
}

#[test]
fn failed_refresh_leaves_no_credential() {
    assert!(refresh_outcome(None, 10).is_none());
    let t = refresh_outcome(Some(token(60, 0, None)), 10).unwrap();
    assert_eq!(t.obtained_at, 10);
}

// ---- Device-code flow ----

#[test]
fn device_flow_pending_twice_then_token() {
    let pending = || PollReply::Error {
        code: "authorization_pending".to_string(),
        description: None,
    };
    let mut posts = 0;
    let mut waits = Vec::new();
    let replies = vec![pending(), pending(), PollReply::Token(token(3600, 0, Some("r")))];
    let mut result = None;
    for reply in replies {
        posts += 1;
        match poll_step(5, reply, 1234) {
            PollAction::Retry { delay } => waits.push(delay),
            PollAction::Succeed(t) => {
                result = Some(t);
                break;
            }
            PollAction::Fail(e) => panic!("{}", e.message()),
        }
    }
    assert_eq!(posts, 3);
    assert_eq!(waits, vec![5, 5]);
    let t = result.unwrap();
    assert_eq!(t.access_token, "access");
    assert_eq!(t.obtained_at, 1234);
    assert_eq!(store_tier(true, true, true), StoreTier::Vault);
}

#[test]
fn slow_down_adds_five_seconds() {
    let reply = PollReply::Error { code: "slow_down".to_string(), description: None };
    assert!(matches!(poll_step(5, reply, 0), PollAction::Retry { delay: 10 }));
    let reply = PollReply::Error { code: "slow_down".to_string(), description: None };
    assert!(matches!(poll_step(u64::MAX - 2, reply, 0), PollAction::Retry { delay: u64::MAX }));
}

#[test]
fn terminal_poll_errors() {
    let reply = PollReply::Error { code: "expired_token".to_string(), description: None };
    match poll_step(5, reply, 0) {
        PollAction::Fail(e) => {
            assert!(matches!(e, AuthError::DeviceCodeExpired));
            assert_eq!(e.message(), "Device code expired. Please restart and try again.");
        }
        _ => panic!("expected a failure"),
    }
    let reply = PollReply::Error {
        code: "access_denied".to_string(),
        description: Some("no".to_string()),
    };
    match poll_step(5, reply, 0) {
        PollAction::Fail(e) => assert_eq!(e.message(), "Authentication error: access_denied - no"),
        _ => panic!("expected a failure"),
    }
    let reply = PollReply::Error { code: "other".to_string(), description: None };
    match poll_step(5, reply, 0) {
        PollAction::Fail(e) => assert_eq!(e.message(), "Authentication error: other - "),
        _ => panic!("expected a failure"),
    }
    match poll_step(5, PollReply::Unreadable, 0) {
        PollAction::Fail(e) => {
            assert_eq!(e.message(), "Unexpected response during authentication")
        }
        _ => panic!("expected a failure"),
    }
    match poll_step(5, PollReply::Malformed, 0) {
        PollAction::Fail(e) => assert_eq!(e.message(), "Failed to parse token response"),
        _ => panic!("expected a failure"),
    }
    match poll_step(5, PollReply::Transport { message: "connection reset".to_string() }, 0) {
        PollAction::Fail(e) => {
            assert!(matches!(e, AuthError::Transport { .. }));
            assert_eq!(e.message(), "connection reset");
        }
        _ => panic!("expected a failure"),
    }
    assert_eq!(AuthError::CallbackTimeout.message(), "Authentication timed out after 5 minutes");
}

// ---- Browser flow ----

#[test]
fn verifier_has_43_characters() {
    assert_eq!(generate_code_verifier().chars().count(), 43);
    let v = verifier_from_bytes(&[0u8; 32]);
    assert_eq!(v, "AAAAAAAAAAAAAAAAAAAAAAAAAAAAAAAAAAAAAAAAAAA");
    let w = verifier_from_bytes(&[0xffu8; 32]);
    assert_eq!(w, "__________________________________________8");
}

#[test]
fn challenge_differs_from_verifier_and_between_verifiers() {
    let v1 = generate_code_verifier();
    let v2 = generate_code_verifier();
    assert_ne!(v1, v2);
    let c1 = compute_code_challenge(&v1);
    assert_ne!(c1, v1);
    assert_eq!(c1, compute_code_challenge(&v1));
    assert_ne!(c1, compute_code_challenge(&v2));
    assert_eq!(c1.chars().count(), 43);
}

#[test]
fn authorize_url_holds_every_part() {
    let url = authorize_url("common", "my client", "http://localhost:8080", "CHALLENGE");
    assert!(url.starts_with(
        "https://login.microsoftonline.com/common/oauth2/v2.0/authorize?client_id=my%20client&response_type=code&redirect_uri=http%3A%2F%2Flocalhost%3A8080&scope=User.Read%20User.ReadBasic.All%20"
    ));
    assert!(url.ends_with(
        "offline_access&code_challenge=CHALLENGE&code_challenge_method=S256&prompt=select_account"
    ));
}

#[test]
fn endpoints_and_redirect() {
    assert_eq!(
        token_endpoint("common"),
        "https://login.microsoftonline.com/common/oauth2/v2.0/token"
    );
    assert_eq!(
        device_code_endpoint("t1"),
        "https://login.microsoftonline.com/t1/oauth2/v2.0/devicecode"
    );
    assert_eq!(redirect_uri(0), "http://localhost:0");
    assert_eq!(redirect_uri(8080), "http://localhost:8080");
    assert_eq!(redirect_uri(65535), "http://localhost:65535");
}

#[test]
fn exchange_outcomes() {
    let e = exchange_outcome(false, "400 Bad Request".to_string(), None, "bad".to_string(), 1)
        .err()
        .unwrap();
    assert_eq!(e.message(), "Token exchange failed (400 Bad Request): bad");
    let e =
        exchange_outcome(true, "200 OK".to_string(), None, "{}".to_string(), 1).err().unwrap();
    assert!(matches!(e, AuthError::InvalidTokenResponse));
    let t = exchange_outcome(true, "200 OK".to_string(), Some(token(5, 0, None)), String::new(), 9)
        .unwrap();
    assert_eq!(t.obtained_at, 9);
}

#[test]
fn callback_without_code_or_error_is_unknown() {
    let e = parse_auth_callback("GET / HTTP/1.1\r\n").unwrap_err();
    assert_eq!(e.message(), "Authentication denied: unknown - ");
    let e = parse_auth_callback("").unwrap_err();
    assert_eq!(e.message(), "Authentication denied: unknown - ");
}

#[test]
fn callback_error_carries_description() {
    let e = parse_auth_callback(
        "GET /?error=access_denied&error_description=User%20denied HTTP/1.1\r\n",
    )
    .unwrap_err();
    assert_eq!(e.message(), "Authentication denied: access_denied - User denied");
}

#[test]
fn callback_reads_only_the_first_line_and_query() {
    assert_eq!(parse_auth_callback("GET /cb?code=A+B&x=1 HTTP/1.1").unwrap(), "A B");
    assert!(parse_auth_callback("GET /\r\nGET /?code=late HTTP/1.1\r\n").is_err());
    assert_eq!(parse_auth_callback("GET /?code=first&code=second HTTP/1.1\r\n").unwrap(), "second");
    assert!(parse_auth_callback("GET /?code=first&code HTTP/1.1\r\n").is_err());
    assert_eq!(parse_auth_callback("  GET\t/?code=x?code=y  HTTP/1.1\n").unwrap(), "x");
    assert_eq!(parse_auth_callback("GET /?a=1&code=k=v HTTP/1.1\n").unwrap(), "k=v");
}

// ---- Percent-encoding ----

#[test]
fn encode_escapes_everything_but_unreserved() {
    assert_eq!(percent_encode("AZaz09-_.~"), "AZaz09-_.~");
    assert_eq!(percent_encode("+%/?#"), "%2B%25%2F%3F%23");
    assert_eq!(percent_encode("\u{e9}"), "%C3%A9");
    assert_eq!(percent_encode("\n"), "%0A");
    assert_eq!(percent_encode(""), "");
}

#[test]
fn decode_of_malformed_escapes() {
    assert_eq!(simple_url_decode("a%zzb"), "ab");
    assert_eq!(simple_url_decode("a%4"), "a\u{4}");
    assert_eq!(simple_url_decode("a%"), "a");
    assert_eq!(simple_url_decode("%+5x"), "\u{5}x");
    assert_eq!(simple_url_decode("%41%6a%6A"), "Ajj");
    assert_eq!(simple_url_decode("%C3%A9"), "\u{c3}\u{a9}");
}

#[test]
fn round_trip_of_ascii_text() {
    let mut all = String::new();
    for b in 0u8..128 {
        all.push(b as char);
    }
    assert_eq!(simple_url_decode(&percent_encode(&all)), all);
}

// ---- Stored form ----

#[test]
fn vault_entries_of_a_credential() {
    let t = token(3600, 1_700_000_000, None);
    assert_eq!(vault_metadata(&t), "3600,1700000000");
    assert_eq!(vault_refresh_entry(&t), "");
    assert_eq!(vault_refresh_entry(&token(1, 1, Some("r"))), "r");
    assert_eq!(vault_metadata(&token(0, u64::MAX, None)), "0,18446744073709551615");
}

#[test]
fn metadata_is_read_with_defaults() {
    assert_eq!(parse_vault_metadata("3600,1700000000"), (3600, 1_700_000_000));
    assert_eq!(parse_vault_metadata(""), (3600, 0));
    assert_eq!(parse_vault_metadata("12"), (12, 0));
    assert_eq!(parse_vault_metadata("x,7"), (3600, 7));
    assert_eq!(parse_vault_metadata("+5,9,1"), (5, 9));
    assert_eq!(parse_vault_metadata("18446744073709551616,1"), (3600, 1));
    assert_eq!(parse_vault_metadata("18446744073709551615,-1"), (u64::MAX, 0));
}

#[test]
fn credential_from_vault_entries() {
    assert!(token_from_vault(None, Some("r".to_string()), None).is_none());
    assert!(token_from_vault(Some(String::new()), None, None).is_none());
    let t = token_from_vault(Some("a".to_string()), Some(String::new()), None).unwrap();
    assert_eq!(t.access_token, "a");
    assert_eq!(t.refresh_token, None);
    assert_eq!(t.expires_in, 3600);
    assert_eq!(t.obtained_at, 0);
    assert_eq!(t.token_type, "Bearer");
    let t = token_from_vault(
        Some("a".to_string()),
        Some("r".to_string()),
        Some("100,200".to_string()),
    )
    .unwrap();
    assert_eq!(t.refresh_token.as_deref(), Some("r"));
    assert_eq!((t.expires_in, t.obtained_at), (100, 200));
}

#[test]
fn tiers_are_never_mixed() {
    assert_eq!(store_tier(true, true, false), StoreTier::File);
    assert_eq!(store_tier(true, false, true), StoreTier::File);
    assert_eq!(store_tier(false, true, true), StoreTier::File);
    let v = select_stored(Some(token(1, 1, None)), Some(token(2, 2, None))).unwrap();
    assert_eq!(v.expires_in, 1);
    let f = select_stored(None, Some(token(2, 2, None))).unwrap();
    assert_eq!(f.expires_in, 2);
    assert!(select_stored(None, None).is_none());
}

// ---- Merging ----

#[test]
fn merge_of_nothing_changes_nothing() {
    let existing = vec![message("b", Some("2"), "x"), message("a", Some("1"), "y")];
    let (all, has_new) = merge(existing, Vec::new());
    assert!(!has_new);
    assert_eq!(ids(&all), vec!["b", "a"]);
}

#[test]
fn merge_orders_whatever_comes_in() {
    let existing = vec![
        message("m1", Some("2026-01-01T10:00:00Z"), "a"),
        message("m3", Some("2026-01-01T10:02:00Z"), "c"),
    ];
    let incoming = vec![
        message("m4", Some("2026-01-01T10:03:00Z"), "d"),
        message("m2", Some("2026-01-01T10:01:00Z"), "b"),
        message("m0", None, "z"),
        message("m3", Some("2026-01-01T09:00:00Z"), "moved"),
    ];
    let (all, has_new) = merge(existing, incoming);
    assert!(has_new);
    assert_eq!(ids(&all), vec!["m0", "m3", "m1", "m2", "m4"]);
    assert_eq!(all[1].content_text(), "moved");
}

#[test]
fn merge_keeps_the_order_of_equal_times() {
    let existing = vec![message("a", Some("1"), ""), message("b", Some("1"), "")];
    let (all, has_new) = merge(existing, vec![message("c", Some("1"), "")]);
    assert!(has_new);
    assert_eq!(ids(&all), vec!["a", "b", "c"]);
}

#[test]
fn times_compare_as_texts() {
    let s = |t: &str| Some(t.to_string());
    assert!(time_no_later(&None, &None));
    assert!(time_no_later(&None, &s("")));
    assert!(!time_no_later(&s(""), &None));
    assert!(time_no_later(&s("a"), &s("a")));
    assert!(time_no_later(&s("a"), &s("ab")));
    assert!(!time_no_later(&s("ab"), &s("a")));
    assert!(time_no_later(&s("ab"), &s("b")));
    assert!(!time_no_later(&s("b"), &s("ab")));
}

#[test]
fn merge_into_app_updates_known_ids() {
    let mut app = App::new();
    app.messages = vec![message("m1", Some("1"), "a")];
    app.known_message_ids.insert("m1".to_string());
    assert!(!app.merge_delta_messages(vec![message("m1", Some("1"), "new text")]));
    assert_eq!(app.messages.len(), 1);
    assert_eq!(app.messages[0].content_text(), "new text");
    assert!(app.merge_delta_messages(vec![message("m0", Some("0"), "b")]));
    assert_eq!(ids(&app.messages), vec!["m0", "m1"]);
    assert!(app.known_message_ids.contains("m0"));
    assert_eq!(app.known_message_ids.len(), 2);
}

// ---- Caches and background results ----

#[test]
fn navigating_back_shows_the_cached_channels() {
    let mut app = App::new();
    app.teams = vec![team("A"), team("B")];
    app.apply_background_result(BgResult::Channels(
        "B".to_string(),
        vec![channel("b1", "one"), channel("b2", "two")],
    ));
    app.apply_background_result(BgResult::Channels("A".to_string(), vec![channel("a1", "x")]));
    assert_eq!(channel_ids(&app.channels), vec!["a1"]);
    app.select_next_team();
    app.show_cached_channels_for_selected_team();
    assert_eq!(channel_ids(&app.channels), vec!["b1", "b2"]);
    app.select_prev_team();
    app.show_cached_channels_for_selected_team();
    assert_eq!(channel_ids(&app.channels), vec!["a1"]);
    assert_eq!(app.selected_channel, 0);
    assert_eq!(app.channels_cache.len(), 2);
}

#[test]
fn stale_result_reaches_the_cache_but_not_the_screen() {
    let mut app = App::new();
    app.switch_to_teams();
    app.teams = vec![team("A"), team("B")];
    app.channels = vec![channel("c1", "one"), channel("c2", "two")];
    app.channel_messages = vec![message("shown", None, "")];
    app.apply_background_result(BgResult::ChannelMessages(
        "c2".to_string(),
        vec![message("late", None, "")],
    ));
    assert_eq!(ids(&app.channel_messages), vec!["shown"]);
    assert_eq!(ids(app.channel_message_cache.get("c2").unwrap()), vec!["late"]);
    app.apply_background_result(BgResult::ChannelMessages(
        "c1".to_string(),
        vec![message("fresh", None, "")],
    ));
    assert_eq!(ids(&app.channel_messages), vec!["fresh"]);
    app.apply_background_result(BgResult::Channels("B".to_string(), vec![channel("b1", "b")]));
    assert_eq!(channel_ids(&app.channels), vec!["c1", "c2"]);
    assert_eq!(channel_ids(app.channels_cache.get("B").unwrap()), vec!["b1"]);
}

#[test]
fn channel_messages_wait_for_the_teams_view() {
    let mut app = App::new();
    app.channels = vec![channel("c1", "one")];
    assert_eq!(app.view_mode, ViewMode::Chats);
    assert!(!app.is_current_channel("c1"));
    app.apply_background_result(BgResult::ChannelMessages(
        "c1".to_string(),
        vec![message("m", None, "")],
    ));
    assert!(app.channel_messages.is_empty());
    app.switch_to_teams();
    assert!(app.is_current_channel("c1"));
    assert!(!app.is_current_channel("c2"));
    app.show_cached_messages_for_selected_channel();
    assert_eq!(ids(&app.channel_messages), vec!["m"]);
}

#[test]
fn presence_results_are_taken_in() {
    let mut app = App::new();
    app.apply_background_result(BgResult::MyPresence("Busy".to_string()));
    assert_eq!(app.my_presence, "Busy");
    app.presence_map.insert("u1".to_string(), "Available".to_string());
    app.presence_map.insert("u2".to_string(), "Offline".to_string());
    app.apply_background_result(BgResult::PresenceMap(vec![
        ("u1".to_string(), "Busy".to_string()),
        ("u3".to_string(), "Away".to_string()),
        ("u1".to_string(), "Away".to_string()),
    ]));
    assert_eq!(app.presence_map.get("u1").unwrap(), "Away");
    assert_eq!(app.presence_map.get("u2").unwrap(), "Offline");
    assert_eq!(app.presence_map.get("u3").unwrap(), "Away");
    assert_eq!(app.presence_map.len(), 3);
}

#[test]
fn preload_skips_the_selected_channel() {
    let mut app = App::new();
    app.channels = vec![channel("c1", ""), channel("c2", ""), channel("c3", "")];
    app.selected_channel = 1;
    assert_eq!(app.channel_preload_targets(), vec!["c1", "c3"]);
    app.selected_channel = 9;
    assert_eq!(app.channel_preload_targets(), vec!["c1", "c2", "c3"]);
    app.teams = vec![team("A"), team("B"), team("C")];
    assert_eq!(app.team_preload_targets(), vec!["B", "C"]);
    app.select_next_team();
    app.select_next_team();
    assert_eq!(app.team_preload_targets(), vec!["A", "B"]);
    app.teams.clear();
    assert!(app.team_preload_targets().is_empty());
}

#[test]
fn presence_ids_are_the_other_members_once() {
    let member = |id: Option<&str>| ChatMember {
        id: None,
        display_name: None,
        user_id: id.map(String::from),
    };
    let chat = |members: Option<Vec<ChatMember>>| Chat {
        id: "c".to_string(),
        topic: None,
        chat_type: "group".to_string(),
        members,
        last_message_preview: None,
        unread_message_count: None,
    };
    let mut app = App::new();
    app.current_user = Some(ttyms::models::User {
        id: "me".to_string(),
        display_name: "Me".to_string(),
        mail: None,
        user_principal_name: None,
    });
    app.chats = vec![
        chat(Some(vec![member(Some("me")), member(Some("u2")), member(None)])),
        chat(None),
        chat(Some(vec![member(Some("u1")), member(Some("u2")), member(Some("me"))])),
    ];
    assert_eq!(app.presence_user_ids(), vec!["u2", "u1"]);
}

#[test]
fn foreground_loads_replace_wholesale() {
    let mut app = App::new();
    app.teams = vec![team("A")];
    app.selected_channel = 3;
    app.channels_loaded("A".to_string(), vec![channel("a1", "x")]);
    assert_eq!(app.selected_channel, 0);
    assert_eq!(channel_ids(app.channels_cache.get("A").unwrap()), vec!["a1"]);
    app.status_message = "Loading".to_string();
    app.channel_messages_loaded(
        "a1".to_string(),
        vec![message("m", None, "")],
        Some("next".to_string()),
    );
    assert_eq!(app.status_message, "");
    assert_eq!(app.channel_messages_next_link.as_deref(), Some("next"));
    assert_eq!(ids(app.channel_message_cache.get("a1").unwrap()), vec!["m"]);
    app.selected_message = Some(0);
    app.scroll_offset = 9;
    app.begin_message_load();
    assert_eq!(app.selected_message, None);
    assert_eq!(app.scroll_offset, 0);
    app.messages_loaded(vec![message("x", None, "")], None);
    assert!(app.known_message_ids.contains("x"));
    app.older_messages_loaded(vec![message("w", None, "")], Some("older".to_string()));
    assert_eq!(ids(&app.messages), vec!["w", "x"]);
    assert_eq!(app.scroll_offset, 2);
    assert_eq!(app.messages_next_link.as_deref(), Some("older"));
    app.older_channel_messages_loaded(vec![message("v", None, "")], None);
    assert_eq!(ids(&app.channel_messages), vec!["v", "m"]);
    assert_eq!(app.channel_messages_next_link, None);
}

#[test]
fn unread_total_is_cut_to_the_range() {
    let chat = |n: Option<i32>| Chat {
        id: "c".to_string(),
        topic: None,
        chat_type: "group".to_string(),
        members: None,
        last_message_preview: None,
        unread_message_count: n,
    };
    let mut app = App::new();
    app.chats_loaded(vec![chat(Some(i32::MAX)), chat(Some(1)), chat(None)]);
    assert_eq!(app.total_unread, i32::MAX);
    app.chats_loaded(vec![chat(Some(3)), chat(Some(-1)), chat(Some(5))]);
    assert_eq!(app.total_unread, 7);
}

// ---- Service ----

#[test]
fn pages_are_turned_oldest_first() {
    let page = PagedResponse {
        value: vec![message("3", None, ""), message("2", None, ""), message("1", None, "")],
        next_link: Some("older".to_string()),
    };
    let (messages, next) = oldest_first(page);
    assert_eq!(ids(&messages), vec!["1", "2", "3"]);
    assert_eq!(next.as_deref(), Some("older"));
}

#[test]
fn delta_pages_are_followed_to_the_end() {
    let mut all = vec![message("0", None, "")];
    let step = take_delta_page(
        &mut all,
        DeltaResponse {
            value: vec![message("1", None, "")],
            next_link: Some("page2".to_string()),
            delta_link: Some("ignored".to_string()),
        },
    );
    assert!(matches!(step, DeltaStep::Next(ref n) if n == "page2"));
    let step = take_delta_page(
        &mut all,
        DeltaResponse {
            value: vec![message("2", None, "")],
            next_link: None,
            delta_link: Some("token".to_string()),
        },
    );
    assert!(matches!(step, DeltaStep::Done(Some(ref t)) if t == "token"));
    assert_eq!(ids(&all), vec!["0", "1", "2"]);
}

#[test]
fn service_addresses() {
    assert_eq!(
        messages_url("19:abc"),
        "https://graph.microsoft.com/v1.0/me/chats/19:abc/messages?$top=50&$orderby=createdDateTime%20desc"
    );
    assert_eq!(
        delta_url("c1", None),
        "https://graph.microsoft.com/v1.0/me/chats/c1/messages/delta"
    );
    assert_eq!(delta_url("c1", Some("https://x/delta?token=1")), "https://x/delta?token=1");
    assert_eq!(bearer("tok"), "Bearer tok");
}

#[test]
fn settings_fall_back_to_the_built_in_client() {
    let c = Config { client_id: String::new(), tenant_id: "common".to_string() };
    let c = c.with_default_client();
    assert_eq!(c.client_id, default_client_id());
    assert_eq!(c.client_id, "ac138a64-055b-4915-b670-31200c6235e6");
    let c = c.with_client_override(Some("mine".to_string()));
    assert_eq!(c.client_id, "mine");
    let c = c.with_default_client().with_client_override(None);
    assert_eq!(c.client_id, "mine");
    assert_eq!(c.tenant_id, "common");
}

#[test]
fn clipboard_base64() {
    assert_eq!(base64_encode(""), "");
    assert_eq!(base64_encode("f"), "Zg==");
    assert_eq!(base64_encode("fo"), "Zm8=");
    assert_eq!(base64_encode("foo"), "Zm9v");
    assert_eq!(base64_encode("foobar"), "Zm9vYmFy");
    assert_eq!(base64_encode("\u{ff}\u{fe}>?"), "w7/Dvj4/");
}

// ---- Markup ----

#[test]
fn tags_are_matched_in_any_case() {
    assert_eq!(
        parse_rich_text("<B>x</B><BR/>y<Br />"),
        vec![
            RichSegment::Bold("x".to_string()),
            RichSegment::Newline,
            RichSegment::Plain("y".to_string()),
            RichSegment::Newline,
        ]
    );
}

#[test]
fn links_and_nested_markup() {
    assert_eq!(
        parse_rich_text("a<a href='u'>t <b>b</b></a><i></i><span>z</span><pre>&lt;</pre>"),
        vec![
            RichSegment::Plain("a".to_string()),
            RichSegment::Link { text: "t b".to_string(), url: "u".to_string() },
            RichSegment::Plain("z".to_string()),
            RichSegment::Code("<".to_string()),
        ]
    );
    assert_eq!(
        parse_rich_text("<a name=x>t</a>"),
        vec![RichSegment::Link { text: "t".to_string(), url: String::new() }]
    );
    assert_eq!(parse_rich_text("<b>open"), vec![RichSegment::Bold("open".to_string())]);
    assert_eq!(parse_rich_text("<"), vec![RichSegment::Plain(String::new())]);
}

#[test]
fn strip_html_cuts_unicode_space_and_decodes_once_in_order() {
    assert_eq!(strip_html("\u{3000}\t x \u{a0}\n"), "x");
    assert_eq!(strip_html("&amp;lt;"), "<");
    assert_eq!(strip_html("a > b < c"), "a  b");
    assert_eq!(strip_html("<unclosed"), "");
}

#[test]
fn search_hit_reads() {
    let hit = SearchHit {
        summary: Some("<c0>Hello</c0> &amp; bye".to_string()),
        resource: Some(SearchChatMessage {
            id: None,
            created_date_time: Some("not a time".to_string()),
            from: Some(SearchFrom {
                email_address: Some(SearchEmailAddress {
                    name: Some("Alice".to_string()),
                    address: None,
                }),
            }),
            chat_id: Some("chat-1".to_string()),
            channel_identity: None,
        }),
    };
    assert_eq!(hit.summary_text(), "Hello & bye");
    assert_eq!(hit.sender_name(), "Alice");
    assert_eq!(hit.chat_id(), Some("chat-1"));
    assert_eq!(hit.formatted_time(), "");
    let empty = SearchHit { summary: None, resource: None };
    assert_eq!(empty.summary_text(), "");
    assert_eq!(empty.sender_name(), "Unknown");
    assert_eq!(empty.chat_id(), None);
    assert_eq!(empty.formatted_time(), "");
}

#[test]
fn own_message_is_recognised() {
    let mut m = message("m", None, "hi");
    m.from = Some(MessageFrom {
        user: Some(MessageUser { display_name: None, id: Some("me".to_string()) }),
    });
    assert!(m.is_sent_by("me"));
    assert!(!m.is_sent_by("you"));
    assert!(!message("n", None, "").is_sent_by(""));
}

#[test]
fn background_client_keeps_its_own_token() {
    let mut client = GraphClient::new(reqwest::Client::new(), "first".to_string());
    let background = client.clone_for_background();
    client.set_token("second".to_string());
    assert_eq!(client.access_token(), "second");
    assert_eq!(background.access_token(), "first");
    let _ = background.transport();
    client.release();
    assert_eq!(client.access_token(), "");
}

#[test]
fn clearing_covers_every_entry_and_byte() {
    assert_eq!(vault_entry_names(), vec!["at", "rt", "meta", "default"]);
    assert_eq!(wipe_pattern(0), Vec::<u8>::new());
    assert_eq!(wipe_pattern(5), vec![0u8; 5]);
}

#[test]
fn clock_reads_the_present() {
    let now = std::time::SystemTime::now()
        .duration_since(std::time::UNIX_EPOCH)
        .unwrap()
        .as_secs();
    let read = unix_seconds();
    assert!(read >= now && read <= now + 2);
}

#[test]
fn typing_moves_by_whole_characters() {
    let mut app = App::new();
    app.channel_insert_char('a');
    app.channel_insert_char('\u{e9}');
    app.channel_insert_char('\u{1f389}');
    assert_eq!(app.channel_input_cursor, 7);
    app.channel_move_cursor_left();
    assert_eq!(app.channel_input_cursor, 3);
    app.channel_move_cursor_left();
    assert_eq!(app.channel_input_cursor, 1);
    app.channel_insert_char('b');
    assert_eq!(app.channel_input, "ab\u{e9}\u{1f389}");
    app.channel_move_cursor_right();
    assert_eq!(app.channel_input_cursor, 4);
    app.channel_delete_char();
    assert_eq!(app.channel_input, "ab\u{1f389}");
    assert_eq!(app.channel_input_cursor, 2);
    assert_eq!(app.take_channel_input(), "ab\u{1f389}");
    assert_eq!(app.channel_input_cursor, 0);
}

#[test]
fn search_is_due_after_two_bytes() {
    let mut app = App::new();
    app.new_chat_insert_char('a');
    assert!(!app.should_search());
    app.new_chat_insert_char('b');
    assert!(app.should_search());
    app.last_search_query = "ab".to_string();
    assert!(!app.should_search());
    app.new_chat_delete_char();
    app.new_chat_delete_char();
    app.new_chat_insert_char('\u{e9}');
    assert!(app.should_search());
}

fn sent(id: &str, kind: Option<&str>, sender: Option<&str>, text: &str) -> Message {
    Message {
        id: id.to_string(),
        message_type: kind.map(String::from),
        body: Some(MessageBody { content: Some(text.to_string()), content_type: None }),
        from: sender.map(|s| MessageFrom {
            user: Some(MessageUser {
                display_name: Some(format!("Name of {}", s)),
                id: Some(s.to_string()),
            }),
        }),
        created_date_time: None,
        reactions: None,
        attachments: Vec::new(),
    }
}

fn channel_app() -> App {
    let mut app = App::new();
    app.current_user = Some(ttyms::models::User {
        id: "me".to_string(),
        display_name: "Me".to_string(),
        mail: None,
        user_principal_name: None,
    });
    app.channel_messages = vec![
        sent("m0", Some("message"), Some("you"), "<p>zero</p>"),
        sent("m1", Some("systemEventMessage"), None, "event"),
        sent("m2", Some("message"), Some("me"), "two"),
        sent("m3", None, Some("me"), "three"),
        sent("m4", Some("message"), Some("you"), &"x".repeat(50)),
    ];
    app
}

#[test]
fn channel_selection_steps_over_system_messages() {
    let mut app = channel_app();
    app.select_channel_message_down();
    assert_eq!(app.selected_channel_message, None);
    app.select_channel_message_up();
    assert_eq!(app.selected_channel_message, Some(4));
    assert_eq!(app.selected_channel_message_id(), Some("m4"));
    app.select_channel_message_up();
    assert_eq!(app.selected_channel_message, Some(2));
    app.select_channel_message_up();
    assert_eq!(app.selected_channel_message, Some(0));
    app.select_channel_message_up();
    assert_eq!(app.selected_channel_message, Some(0));
    app.select_channel_message_down();
    assert_eq!(app.selected_channel_message, Some(2));
    app.select_channel_message_down();
    app.select_channel_message_down();
    assert_eq!(app.selected_channel_message, None);
    app.selected_channel_message = Some(1);
    app.select_channel_message_up();
    assert_eq!(app.selected_channel_message, Some(1));
    app.select_channel_message_down();
    assert_eq!(app.selected_channel_message, Some(1));
    app.selected_channel_message = Some(17);
    app.select_channel_message_down();
    assert_eq!(app.selected_channel_message, Some(17));
    assert_eq!(app.selected_channel_message_id(), None);
}

#[test]
fn channel_reply_and_edit() {
    let mut app = channel_app();
    app.selected_channel_message = Some(4);
    assert!(!app.is_own_selected_channel_message());
    app.start_channel_edit();
    assert!(!app.is_editing());
    assert_eq!(app.selected_channel_message, Some(4));
    app.start_channel_reply();
    assert!(app.is_replying());
    assert_eq!(app.reply_to_message_id.as_deref(), Some("m4"));
    assert_eq!(app.reply_to_preview, format!("Name of you: {}", "x".repeat(40)));
    assert_eq!(app.selected_channel_message, None);
    assert_eq!(app.teams_panel, ttyms::app::TeamsPanel::ChannelInput);
    app.cancel_reply();
    assert!(!app.is_replying());
    assert_eq!(app.reply_to_preview, "");
    app.selected_channel_message = Some(2);
    assert!(app.is_own_selected_channel_message());
    app.start_channel_edit();
    assert!(app.is_editing());
    assert!(!app.is_replying());
    assert_eq!(app.editing_message_id.as_deref(), Some("m2"));
    assert_eq!(app.channel_input, "two");
    assert_eq!(app.channel_input_cursor, 3);
    app.cancel_edit();
    assert!(!app.is_editing());
    app.selected_channel_message = Some(9);
    app.start_channel_reply();
    assert!(!app.is_replying());
}

#[test]
fn file_attachments_are_the_references() {
    let attachment = |kind: Option<&str>, name: &str| ttyms::models::ChatMessageAttachment {
        id: None,
        content_type: kind.map(String::from),
        content_url: None,
        name: Some(name.to_string()),
    };
    let mut m = message("m", None, "");
    assert!(m.file_attachments().is_empty());
    m.attachments = vec![
        attachment(Some("reference"), "a.txt"),
        attachment(Some("application/vnd.microsoft.card.adaptive"), "card"),
        attachment(None, "none"),
        attachment(Some("reference"), "b.txt"),
    ];
    let names: Vec<&str> =
        m.file_attachments().iter().map(|a| a.name.as_deref().unwrap()).collect();
    assert_eq!(names, vec!["a.txt", "b.txt"]);
}

#[test]
fn reaction_picker_needs_a_selection_in_the_active_view() {
    let mut app = channel_app();
    app.selected_channel_message = Some(0);
    app.open_reaction_picker();
    assert_eq!(app.dialog, ttyms::app::DialogMode::Closed);
    app.switch_to_teams();
    app.selected_reaction = 3;
    app.open_reaction_picker();
    assert_eq!(app.dialog, ttyms::app::DialogMode::ReactionPicker);
    assert_eq!(app.selected_reaction, 0);
}

#[test]
fn times_are_rendered_with_fixed_width() {
    let m = message("m", Some("2026-01-15T10:30:00Z"), "");
    let t = m.formatted_time();
    assert_eq!(t.chars().count(), 5);
    assert_eq!(t.chars().nth(2), Some(':'));
    assert!(t.ends_with("0"));
    assert_eq!(message("m", Some("2026-01-15 10:30"), "").formatted_time(), "");
    assert_eq!(message("m", None, "").formatted_time(), "");
    let hit = SearchHit {
        summary: None,
        resource: Some(SearchChatMessage {
            id: None,
            created_date_time: Some("2026-12-31T23:59:59+00:00".to_string()),
            from: None,
            chat_id: None,
            channel_identity: None,
        }),
    };
    let t = hit.formatted_time();
    assert_eq!(t.chars().count(), 11);
    assert_eq!(t.chars().nth(2), Some('/'));
    assert_eq!(t.chars().nth(5), Some(' '));
    assert_eq!(t.chars().nth(8), Some(':'));
}

#[test]
fn a_created_chat_is_selected() {
    let chat = |id: &str, unread: Option<i32>| Chat {
        id: id.to_string(),
        topic: None,
        chat_type: "oneOnOne".to_string(),
        members: None,
        last_message_preview: None,
        unread_message_count: unread,
    };
    let mut app = App::new();
    app.chat_created(vec![chat("a", Some(2)), chat("b", None), chat("b", Some(1))], "b");
    assert_eq!(app.selected_chat, 1);
    assert_eq!(app.total_unread, 3);
    assert_eq!(app.active_panel, ttyms::app::Panel::Input);
    app.chat_created(vec![chat("a", None), chat("b", None)], "zz");
    assert_eq!(app.selected_chat, 0);
    app.chat_created(Vec::new(), "a");
    assert_eq!(app.selected_chat, 0);
}

#[test]
fn refresh_is_due_once_the_interval_has_passed() {
    let mut app = App::new();
    assert_eq!(app.refresh_interval, ttyms::app::Interval::from_secs(15));
    assert_eq!(app.refresh_interval.nanos, 15_000_000_000);
    assert!(!app.should_refresh_after(14_999_999_999));
    assert!(app.should_refresh_after(15_000_000_000));
    app.refresh_interval = ttyms::app::Interval::from_millis(2);
    assert_eq!(app.refresh_interval.nanos, 2_000_000);
    assert!(!app.should_refresh_after(1_999_999));
    assert!(app.should_refresh_after(u128::MAX));
    app.refresh_interval = ttyms::app::Interval::from_secs(3600);
    let earlier = std::time::Instant::now();
    app.mark_refreshed();
    assert!(app.last_refresh >= earlier);
    assert!(!app.should_refresh());
    app.refreshed_at(earlier);
    assert_eq!(app.last_refresh, earlier);
}
