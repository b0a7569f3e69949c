use link_channels::acknowledge::{
    check_ack_request, plan_acknowledgment, plan_acknowledgment_at, AcknowledgeMessageRequest,
};
use link_channels::channel::{format_link_channel, format_link_label, is_valid_link_channel, parse_link_channel};
use link_channels::events::{event_filter, event_type, lagged_notice, should_send, ApiEvent};
use link_channels::links::{
    display_name_for, find_link, link_channel_infos, sending_allowed, AgentConfig, AgentLink,
    LinkDirection,
};
use link_channels::messages::{
    list_messages, message_status, retention_info, search_messages, ConversationMessage,
    LinkChannelMessage, MessageTime,
};
use link_channels::notify::{
    count_unread, notices, notification_text, tally_unread, unread_checks, UnreadCheck, UnreadCount,
};
use link_channels::send::{plan_send, plan_send_with_id, SendLinkMessageRequest};
use link_channels::text::{contains_str, is_blank, is_whitespace, starts_with_ascii_nocase_str};
use link_channels::validation::{
    check_list_query, check_search_query, check_status_request, clamp_limit, default_ack_status, default_message_limit,
    default_message_type, is_valid_ack_status, is_valid_message_type, is_valid_role,
    is_valid_sender, ApiError, LinkMessageSearchQuery, LinkMessagesQuery,
};

fn s(x: &str) -> String {
    x.to_string()
}

fn msg(id: &str, role: &str, sender_id: Option<&str>, sender_name: Option<&str>, content: &str, secs: i64) -> ConversationMessage {
    ConversationMessage {
        id: s(id),
        channel_id: s("link:a:b"),
        role: s(role),
        sender_name: sender_name.map(s),
        sender_id: sender_id.map(s),
        content: s(content),
        metadata: None,
        created_at: MessageTime { secs, nanos: 0 },
    }
}

fn link(from: &str, to: &str, direction: LinkDirection) -> AgentLink {
    AgentLink { from_agent_id: s(from), to_agent_id: s(to), kind: s("peer"), direction }
}

fn ids(v: &[LinkChannelMessage]) -> Vec<String> {
    v.iter().map(|m| m.id.clone()).collect()
}

#[test]
fn test_channel_format_validation() {
    assert!(is_valid_link_channel("link:orchestrator:nexus"));
    assert!(is_valid_link_channel("link:a:b"));
    assert!(!is_valid_link_channel("invalid"));
    assert!(!is_valid_link_channel("link:only"));
    assert!(!is_valid_link_channel("link::empty"));
    assert!(!is_valid_link_channel(""));
}

#[test]
fn test_message_type_validation() {
    assert!(is_valid_message_type("text"));
    assert!(is_valid_message_type("task_delegation"));
    assert!(!is_valid_message_type("invalid"));
}

#[test]
fn test_acknowledge_status_validation() {
    assert!(is_valid_ack_status("delivered"));
    assert!(is_valid_ack_status("read"));
    assert!(is_valid_ack_status("processed"));
    assert!(!is_valid_ack_status("invalid"));
}

#[test]
fn channel_edge_cases() {
    assert!(!is_valid_link_channel("link:a:b:c"));
    assert!(!is_valid_link_channel("link:a:"));
    assert!(!is_valid_link_channel("LINK:a:b"));
    assert!(!is_valid_link_channel("links:a:b"));
    assert!(!is_valid_link_channel("link"));
    assert!(!is_valid_link_channel(":link:a:b"));
    assert!(is_valid_link_channel("link:ä:b-2"));
    assert_eq!(parse_link_channel("link:orchestrator:nexus"), Some((s("orchestrator"), s("nexus"))));
    assert_eq!(parse_link_channel("link:a::b"), None);
}

#[test]
fn channel_reversal_round_trip() {
    let (a, b) = parse_link_channel("link:x:y").unwrap();
    let reversed = format_link_channel(&b, &a);
    assert_eq!(reversed, "link:y:x");
    let (c, d) = parse_link_channel(&reversed).unwrap();
    assert_eq!(format_link_channel(&d, &c), "link:x:y");
    assert_eq!(format_link_label("x", "y"), "x->y");
}

#[test]
fn other_message_types_and_roles() {
    assert!(is_valid_message_type("acknowledgment"));
    assert!(is_valid_message_type("status_update"));
    assert!(!is_valid_message_type("Text"));
    assert!(is_valid_role("user"));
    assert!(is_valid_role("assistant"));
    assert!(is_valid_role("system"));
    assert!(!is_valid_role("admin"));
}

#[test]
fn sender_filter_validation() {
    assert!(is_valid_sender("agent-1_x"));
    assert!(!is_valid_sender("user@host"));
    assert!(!is_valid_sender("@"));
    assert!(is_valid_sender("é9"));
    assert!(!is_valid_sender(""));
    assert!(!is_valid_sender("a b"));
    assert!(!is_valid_sender("a;b"));
}

#[test]
fn limits_and_defaults() {
    assert_eq!(clamp_limit(0), 1);
    assert_eq!(clamp_limit(-5), 1);
    assert_eq!(clamp_limit(500), 100);
    assert_eq!(clamp_limit(100), 100);
    assert_eq!(clamp_limit(50), 50);
    assert_eq!(default_message_limit(), 20);
    assert_eq!(clamp_limit(default_message_limit()), 20);
    assert_eq!(default_message_type(), "text");
    assert!(is_valid_message_type(&default_message_type()));
    assert_eq!(default_ack_status(), "delivered");
    assert!(is_valid_ack_status(&default_ack_status()));
}

#[test]
fn error_status_codes() {
    assert_eq!(ApiError::BadRequest.status_code(), 400);
    assert_eq!(ApiError::Forbidden.status_code(), 403);
    assert_eq!(ApiError::NotFound.status_code(), 404);
    assert_eq!(ApiError::InternalServerError.status_code(), 500);
}

fn list_query(channel: &str, role: Option<&str>, sender: Option<&str>, limit: i64) -> LinkMessagesQuery {
    LinkMessagesQuery {
        channel_id: s(channel),
        limit,
        role: role.map(s),
        sender: sender.map(s),
        before: None,
        after: None,
        oldest_first: false,
    }
}

#[test]
fn list_query_checks() {
    assert_eq!(check_list_query(&list_query("link:a:b", None, None, 500)), Ok(100));
    assert_eq!(check_list_query(&list_query("invalid", None, None, 5)), Err(ApiError::BadRequest));
    assert_eq!(check_list_query(&list_query("link:a:b", Some("root"), None, 5)), Err(ApiError::BadRequest));
    assert_eq!(check_list_query(&list_query("link:a:b", None, Some("a b"), 5)), Err(ApiError::BadRequest));
    assert_eq!(check_list_query(&list_query("link:a:b", Some("user"), Some("bob"), 5)), Ok(5));
}

#[test]
fn search_query_checks() {
    let q = LinkMessageSearchQuery { channel_id: s("invalid"), q: None, role: None, sender_id: None, limit: 20 };
    assert_eq!(check_search_query(&q), Err(ApiError::BadRequest));
    let q = LinkMessageSearchQuery { channel_id: s("link:a:b"), q: None, role: None, sender_id: None, limit: 0 };
    assert_eq!(check_search_query(&q), Ok(1));
}

#[test]
fn message_time_is_written_in_rfc3339() {
    let m = LinkChannelMessage::from_conversation(&msg("1", "user", None, None, "hi", 1431648000));
    assert_eq!(m.created_at, "2015-05-15T00:00:00+00:00");
    let mut c = msg("2", "user", Some("a"), Some("A"), "x", 0);
    c.created_at.nanos = 500_000_000;
    let m = LinkChannelMessage::from_conversation(&c);
    assert_eq!(m.created_at, "1970-01-01T00:00:00.500+00:00");
    assert_eq!(m.sender_id, Some(s("a")));
    assert_eq!(m.sender_name, Some(s("A")));
    assert_eq!(m.content, "x");
}

fn four() -> Vec<ConversationMessage> {
    vec![
        msg("m1", "user", Some("agent-a"), Some("Alice"), "one", 10),
        msg("m2", "assistant", Some("agent-b"), Some("Bob"), "two", 20),
        msg("m3", "user", Some("agent-b"), None, "three", 30),
        msg("m4", "system", None, Some("ALICE Smith"), "four", 40),
    ]
}

#[test]
fn listing_pages() {
    let r = list_messages(four(), 3, false, &None, &None);
    assert!(r.has_more);
    assert_eq!(ids(&r.messages), vec!["m2", "m3", "m4"]);
    let r = list_messages(four(), 3, true, &None, &None);
    assert!(r.has_more);
    assert_eq!(ids(&r.messages), vec!["m1", "m2", "m3"]);
    let r = list_messages(four(), 4, true, &None, &None);
    assert!(!r.has_more);
    assert_eq!(r.messages.len(), 4);
    let r = list_messages(Vec::new(), 1, false, &None, &None);
    assert!(!r.has_more);
    assert!(r.messages.is_empty());
}

#[test]
fn listing_filters() {
    let r = list_messages(four(), 10, false, &Some(s("user")), &None);
    assert_eq!(ids(&r.messages), vec!["m1", "m3"]);
    // sender id holds the filter, or the name holds it ignoring case
    let r = list_messages(four(), 10, false, &None, &Some(s("alice")));
    assert_eq!(ids(&r.messages), vec!["m1", "m4"]);
    let r = list_messages(four(), 10, false, &None, &Some(s("agent-b")));
    assert_eq!(ids(&r.messages), vec!["m2", "m3"]);
    let r = list_messages(four(), 10, false, &Some(s("user")), &Some(s("agent-b")));
    assert_eq!(ids(&r.messages), vec!["m3"]);
    // sender id matching is case-sensitive
    let r = list_messages(four(), 10, false, &None, &Some(s("AGENT")));
    assert!(r.messages.is_empty());
}

#[test]
fn listing_law_within_limit() {
    for limit in 0..6i64 {
        let fetched: Vec<ConversationMessage> = four().into_iter().take((limit + 1) as usize).collect();
        let n = fetched.len() as i64;
        let r = list_messages(fetched, limit, false, &None, &None);
        assert!(r.messages.len() as i64 <= limit);
        assert_eq!(r.has_more, n == limit + 1);
    }
}

#[test]
fn search_filters() {
    let r = search_messages(four(), &Some(s("T")), &None, &None, 20);
    assert_eq!(ids(&r.messages), vec!["m2", "m3"]);
    assert_eq!(r.total, 2);
    let r = search_messages(four(), &None, &None, &Some(s("agent-b")), 20);
    assert_eq!(ids(&r.messages), vec!["m2", "m3"]);
    let r = search_messages(four(), &None, &None, &Some(s("agent")), 20);
    assert_eq!(r.total, 0);
    let r = search_messages(four(), &Some(s("o")), &Some(s("user")), &None, 20);
    assert_eq!(ids(&r.messages), vec!["m1"]);
    let r = search_messages(four(), &None, &None, &None, 20);
    assert_eq!(r.total, 4);
}

#[test]
fn search_limit_applies_to_results() {
    // the limit counts matches, not the messages read: a match after
    // non-matching messages is still found
    let r = search_messages(four(), &Some(s("four")), &None, &None, 1);
    assert_eq!(ids(&r.messages), vec!["m4"]);
    let r = search_messages(four(), &None, &None, &None, 2);
    assert_eq!(ids(&r.messages), vec!["m1", "m2"]);
    assert_eq!(r.total, 2);
    let r = search_messages(four(), &None, &None, &None, 0);
    assert_eq!(r.total, 0);
}

fn with_ack_records() -> Vec<ConversationMessage> {
    let mut msgs = four();
    msgs.push(msg("m5", "system", None, None, "[Acknowledgment] Message m1 marked as read", 1431648000));
    msgs.push(msg("m6", "system", None, None, "[Acknowledgment] Message m1 marked as processed", 1431648060));
    msgs.push(msg("m7", "system", None, None, "[Acknowledgment] Message m2 marked as seen", 0));
    msgs
}

#[test]
fn message_status_answers() {
    let msgs = with_ack_records();
    // m1 is acknowledged by the later record m5, at m5's time
    let r = message_status(&msgs, "m1", "link:a:b").unwrap();
    assert!(r.status.delivered);
    assert!(r.status.acknowledged);
    assert_eq!(r.status.acknowledged_at, Some(s("2015-05-15T00:00:00+00:00")));
    assert_eq!(r.status.message_id, "m1");
    assert_eq!(r.status.channel_id, "link:a:b");
    // a record with an unknown status does not acknowledge m2
    let r = message_status(&msgs, "m2", "link:a:b").unwrap();
    assert!(!r.status.acknowledged);
    assert_eq!(r.status.acknowledged_at, None);
    // the record itself is not acknowledged
    let r = message_status(&msgs, "m5", "link:a:b").unwrap();
    assert!(!r.status.acknowledged);
    assert!(matches!(message_status(&msgs, "nope", "link:a:b"), Err(ApiError::NotFound)));
}

#[test]
fn ack_record_reads_back_as_acknowledged() {
    let mut stored = four();
    let req = AcknowledgeMessageRequest { message_id: s("m3"), channel_id: s("link:a:b"), status: s("read") };
    assert!(!message_status(&stored, "m3", "link:a:b").unwrap().status.acknowledged);
    let plan = plan_acknowledgment_at(&req, &stored, s("2024-01-01T00:00:00+00:00")).unwrap();
    stored.push(msg("ack", "system", None, None, &plan.content, 0));
    let status = message_status(&stored, "m3", "link:a:b").unwrap();
    assert!(status.status.acknowledged);
    assert_eq!(status.status.acknowledged_at, Some(s("1970-01-01T00:00:00+00:00")));
}

#[test]
fn acknowledgment_plans() {
    let stored = four();
    let req = AcknowledgeMessageRequest { message_id: s("m1"), channel_id: s("link:alice:bob"), status: s("processed") };
    assert_eq!(check_ack_request(&req), Ok(()));
    let plan = plan_acknowledgment_at(&req, &stored, s("T")).unwrap();
    assert_eq!(plan.content, "[Acknowledgment] Message m1 marked as processed");
    assert_eq!(plan.channel_id, "link:alice:bob");
    assert_eq!(plan.reverse_channel_id, "link:bob:alice");
    match &plan.event {
        ApiEvent::AgentMessageReceived { from_agent_id, to_agent_id, link_id, channel_id } => {
            assert_eq!(from_agent_id, "alice");
            assert_eq!(to_agent_id, "bob");
            assert_eq!(link_id, "alice->bob");
            assert_eq!(channel_id, "link:alice:bob");
        }
        _ => panic!("wrong event"),
    }
    assert!(plan.response.success);
    assert_eq!(plan.response.message_id, "m1");
    assert_eq!(plan.response.acknowledged_at, "T");
    let now = plan_acknowledgment(&req, &stored).unwrap();
    assert!(now.response.acknowledged_at.ends_with("+00:00"));
    assert!(now.response.acknowledged_at.len() >= 25);
    let unknown = AcknowledgeMessageRequest { message_id: s("zz"), channel_id: s("link:alice:bob"), status: s("read") };
    assert_eq!(check_ack_request(&unknown), Ok(()));
    assert!(matches!(plan_acknowledgment(&unknown, &stored), Err(ApiError::NotFound)));
    let bad = AcknowledgeMessageRequest { message_id: s("m1"), channel_id: s("link:alice:bob"), status: s("seen") };
    assert_eq!(check_ack_request(&bad), Err(ApiError::BadRequest));
    assert!(matches!(plan_acknowledgment(&bad, &stored), Err(ApiError::BadRequest)));
    let bad = AcknowledgeMessageRequest { message_id: s("zz"), channel_id: s("alice:bob"), status: s("read") };
    assert!(matches!(plan_acknowledgment(&bad, &stored), Err(ApiError::BadRequest)));
}

#[test]
fn unread_counts() {
    // m1 is acknowledged, m2 is not an agent message, m3 is unread
    let msgs = with_ack_records();
    assert_eq!(count_unread(&msgs), 1);
    assert_eq!(count_unread(&four()), 2);
    let mut many = Vec::new();
    for k in 0..7 {
        many.push(msg(&format!("u{k}"), "user", None, None, "hello", 0));
    }
    many.push(msg("x", "user", None, None, "[Acknowledgment] stray", 0));
    assert_eq!(count_unread(&many), 5);
    assert_eq!(count_unread(&Vec::new()), 0);
}

#[test]
fn time_range_follows_chrono() {
    // the range a library time may take is the one chrono accepts
    let lo = -8_334_601_228_800i64;
    let hi = 8_210_266_876_799i64;
    assert!(chrono::DateTime::from_timestamp(lo, 0).is_some());
    assert!(chrono::DateTime::from_timestamp(lo - 1, 0).is_none());
    assert!(chrono::DateTime::from_timestamp(hi, 999_999_999).is_some());
    assert!(chrono::DateTime::from_timestamp(hi + 1, 0).is_none());
    assert!(chrono::DateTime::from_timestamp(59, 1_500_000_000).is_some());
    assert!(chrono::DateTime::from_timestamp(58, 1_500_000_000).is_none());
    assert!(chrono::DateTime::from_timestamp(59, 2_000_000_000).is_none());
    let mut early = msg("e", "user", None, None, "x", lo);
    assert_eq!(LinkChannelMessage::from_conversation(&early).created_at, "-262143-01-01T00:00:00+00:00");
    early.created_at = MessageTime { secs: 253_402_300_800, nanos: 0 };
    assert_eq!(LinkChannelMessage::from_conversation(&early).created_at, "+10000-01-01T00:00:00+00:00");
    early.created_at = MessageTime { secs: 59, nanos: 1_500_000_000 };
    assert_eq!(LinkChannelMessage::from_conversation(&early).created_at, "1970-01-01T00:00:60.500+00:00");
}

#[test]
fn listed_link_channels() {
    let links = vec![link("alice", "bob", LinkDirection::OneWay), link("c", "d", LinkDirection::TwoWay)];
    let infos = link_channel_infos(&links);
    assert_eq!(infos.len(), 4);
    assert_eq!(infos[0].channel_id, "link:alice:bob");
    assert_eq!(infos[0].from_agent, "alice");
    assert_eq!(infos[0].to_agent, "bob");
    assert_eq!(infos[0].link_kind, "peer");
    assert_eq!(infos[0].direction, "one_way");
    assert_eq!(infos[1].channel_id, "link:bob:alice");
    assert_eq!(infos[1].from_agent, "bob");
    assert_eq!(infos[1].to_agent, "alice");
    assert_eq!(infos[3].direction, "two_way");
    assert_eq!(links[0].channel_id_for("bob"), "link:bob:alice");
    assert_eq!(links[0].channel_id_for("alice"), "link:alice:bob");
}

#[test]
fn link_lookup_and_direction() {
    let links = vec![link("alice", "bob", LinkDirection::OneWay), link("bob", "alice", LinkDirection::TwoWay)];
    assert_eq!(find_link(&links, "bob", "alice"), Some(0));
    assert_eq!(find_link(&links, "alice", "carol"), None);
    assert!(sending_allowed(&links[0], "alice"));
    assert!(!sending_allowed(&links[0], "bob"));
    assert!(sending_allowed(&links[1], "alice"));
    let configs = vec![
        AgentConfig { id: s("alice"), display_name: Some(s("Alice A.")) },
        AgentConfig { id: s("bob"), display_name: None },
        AgentConfig { id: s("bob"), display_name: Some(s("Later Bob")) },
    ];
    assert_eq!(display_name_for(&configs, "alice"), "Alice A.");
    assert_eq!(display_name_for(&configs, "bob"), "bob");
    assert_eq!(display_name_for(&configs, "carol"), "carol");
}

fn send_req(channel: &str, content: &str, message_type: &str) -> SendLinkMessageRequest {
    SendLinkMessageRequest { channel_id: s(channel), content: s(content), message_type: s(message_type) }
}

#[test]
fn send_plans() {
    let links = vec![link("alice", "bob", LinkDirection::OneWay), link("carol", "dave", LinkDirection::TwoWay)];
    let configs = vec![AgentConfig { id: s("alice"), display_name: Some(s("Alice")) }];
    let plan = plan_send_with_id(&send_req("link:alice:bob", "hello", "text"), &links, &configs, s("id-1")).unwrap();
    assert_eq!(plan.from_agent_id, "alice");
    assert_eq!(plan.to_agent_id, "bob");
    assert_eq!(plan.from_display, "Alice");
    assert_eq!(plan.sender_channel_id, "link:alice:bob");
    assert_eq!(plan.receiver_channel_id, "link:bob:alice");
    assert_eq!(plan.content, "hello");
    assert_eq!(plan.message_type, "text");
    assert!(plan.response.success);
    assert_eq!(plan.response.message_id, "id-1");
    assert_eq!(plan.response.channel_id, "link:alice:bob");
    assert_eq!(plan.response.delivered_to, Some(s("bob")));
    match &plan.event {
        ApiEvent::AgentMessageSent { from_agent_id, to_agent_id, link_id, channel_id } => {
            assert_eq!(from_agent_id, "alice");
            assert_eq!(to_agent_id, "bob");
            assert_eq!(link_id, "alice->bob");
            assert_eq!(channel_id, "link:alice:bob");
        }
        _ => panic!("wrong event"),
    }
    // two-way link: either side may send; display name falls back to the id
    let plan = plan_send(&send_req("link:dave:carol", "hi", "status_update"), &links, &configs).unwrap();
    assert_eq!(plan.from_display, "dave");
    assert_eq!(plan.receiver_channel_id, "link:carol:dave");
    let id = &plan.response.message_id;
    assert_eq!(id.len(), 36);
    let c: Vec<char> = id.chars().collect();
    assert_eq!(c[8], '-');
    assert_eq!(c[13], '-');
    assert_eq!(c[14], '4');
    assert!("89ab".contains(c[19]));
    assert!(c.iter().all(|x| *x == '-' || x.is_ascii_digit() || ('a'..='f').contains(x)));
}

#[test]
fn send_refusals() {
    let links = vec![link("alice", "bob", LinkDirection::OneWay)];
    let configs = Vec::new();
    let r = |c: &str, content: &str, t: &str| plan_send(&send_req(c, content, t), &links, &configs).err();
    assert_eq!(r("link:agent1:agent2", "", "text"), Some(ApiError::BadRequest));
    assert_eq!(r("link:alice:bob", " \t\n", "text"), Some(ApiError::BadRequest));
    assert_eq!(r("link:agent1:agent2", "Test", "invalid"), Some(ApiError::BadRequest));
    assert_eq!(r("invalid", "Test", "text"), Some(ApiError::BadRequest));
    assert_eq!(r("link:agent1:agent2", "Test", "text"), Some(ApiError::NotFound));
    assert_eq!(r("link:bob:alice", "Test", "text"), Some(ApiError::Forbidden));
    assert_eq!(r("link:alice:bob", "Test", "task_delegation"), None);
}

#[test]
fn event_filters() {
    let sent = ApiEvent::AgentMessageSent {
        from_agent_id: s("alice"),
        to_agent_id: s("bob"),
        link_id: s("alice->bob"),
        channel_id: s("link:Alice:bob"),
    };
    let everything = event_filter(None, None);
    assert!(should_send(&sent, &everything));
    assert!(!should_send(&ApiEvent::Other, &everything));
    let f = event_filter(Some(s("LINK:ALICE:Bob")), None);
    assert_eq!(f.channel, Some(s("link:alice:bob")));
    assert!(should_send(&sent, &f));
    // a longer channel that merely holds the subscribed one does not pass
    assert!(!should_send(&sent, &event_filter(Some(s("link:alice")), None)));
    assert!(!should_send(&sent, &event_filter(Some(s("link:alice:b")), None)));
    let f = event_filter(Some(s("link:carol")), None);
    assert!(!should_send(&sent, &f));
    assert!(should_send(&sent, &event_filter(None, Some(s("bob")))));
    assert!(!should_send(&sent, &event_filter(None, Some(s("Bob")))));
    assert!(!should_send(&ApiEvent::Other, &event_filter(Some(s("x")), Some(s("y")))));
    assert_eq!(event_type(&sent), "link_message_sent");
    assert_eq!(event_type(&ApiEvent::Other), "link_event");
    assert_eq!(lagged_notice(42), "{\"skipped\":42}");
    assert_eq!(lagged_notice(0), "{\"skipped\":0}");
}

#[test]
fn unread_notifications() {
    let links = vec![link("alice", "bob", LinkDirection::TwoWay), link("bob", "carol", LinkDirection::OneWay)];
    let pools = vec![s("bob"), s("alice")];
    let checks = unread_checks(&links, &pools);
    let got: Vec<(String, String)> = checks.into_iter().map(|c| (c.agent_id, c.channel_id)).collect();
    assert_eq!(
        got,
        vec![
            (s("bob"), s("link:bob:alice")),
            (s("alice"), s("link:alice:bob")),
            (s("bob"), s("link:bob:carol")),
        ]
    );
    let results = vec![
        UnreadCount { agent_id: s("bob"), count: 2 },
        UnreadCount { agent_id: s("alice"), count: 0 },
        UnreadCount { agent_id: s("bob"), count: 5 },
        UnreadCount { agent_id: s("carol"), count: 1 },
    ];
    let tally = tally_unread(&results);
    let got: Vec<(String, usize)> = tally.into_iter().map(|c| (c.agent_id, c.count)).collect();
    assert_eq!(got, vec![(s("bob"), 7), (s("carol"), 1)]);
    assert_eq!(notification_text(7), "You have 7 unread message(s) in your link channels");
    assert_eq!(notification_text(0), "You have 0 unread message(s) in your link channels");
    assert_eq!(notification_text(1234567890), "You have 1234567890 unread message(s) in your link channels");
}

#[test]
fn text_helpers() {
    assert!(contains_str("hello world", "o w"));
    assert!(contains_str("abc", ""));
    assert!(!contains_str("abc", "abcd"));
    assert!(!contains_str("", "a"));
    assert!(is_blank(""));
    assert!(is_blank(" \u{3000}\t"));
    assert!(!is_blank(" x "));
}

#[test]
fn retention_description() {
    let r = retention_info();
    assert_eq!(r.persistence, "automatic");
    assert_eq!(r.storage_table, "conversation_messages");
}

#[test]
fn test_invalid_channel_format() {
    let query = LinkMessagesQuery {
        channel_id: s("invalid"),
        limit: default_message_limit(),
        role: None,
        sender: None,
        before: None,
        after: None,
        oldest_first: false,
    };
    let status = check_list_query(&query).unwrap_err().status_code();
    assert_eq!(status, 400);
}

#[test]
fn test_send_empty_content() {
    let request = SendLinkMessageRequest {
        channel_id: s("link:agent1:agent2"),
        content: s(""),
        message_type: default_message_type(),
    };
    let status = plan_send(&request, &Vec::new(), &Vec::new()).err().unwrap().status_code();
    assert_eq!(status, 400);
}

#[test]
fn test_invalid_message_type() {
    let request = SendLinkMessageRequest {
        channel_id: s("link:agent1:agent2"),
        content: s("Test"),
        message_type: s("invalid"),
    };
    let status = plan_send(&request, &Vec::new(), &Vec::new()).err().unwrap().status_code();
    assert_eq!(status, 400);
}

#[test]
fn test_search_invalid_channel() {
    let query = LinkMessageSearchQuery {
        channel_id: s("invalid"),
        q: None,
        role: None,
        sender_id: None,
        limit: default_message_limit(),
    };
    let status = check_search_query(&query).unwrap_err().status_code();
    assert_eq!(status, 400);
}

#[test]
fn test_retention_info() {
    let info = retention_info();
    assert_eq!(info.persistence, "automatic");
}

#[test]
fn unread_ignores_marker_in_any_ascii_case() {
    let msgs = vec![msg("u", "user", None, None, "[acknowledgment]", 0)];
    assert_eq!(count_unread(&msgs), 0);
    let msgs = vec![msg("u", "user", None, None, "[ACKNOWLEDGMENT] done", 0)];
    assert_eq!(count_unread(&msgs), 0);
    let msgs = vec![msg("u", "user", None, None, " [Acknowledgment]", 0)];
    assert_eq!(count_unread(&msgs), 1);
    assert!(starts_with_ascii_nocase_str("[AcKnowledgment] x", "[Acknowledgment]"));
    assert!(!starts_with_ascii_nocase_str("[Acknowledgmént]", "[Acknowledgment]"));
    assert!(!starts_with_ascii_nocase_str("[Ack", "[Acknowledgment]"));
}

#[test]
fn white_space_characters() {
    for c in ['\t', '\n', '\u{b}', '\u{c}', '\r', ' ', '\u{85}', '\u{a0}', '\u{1680}', '\u{2000}', '\u{200a}', '\u{2028}', '\u{2029}', '\u{202f}', '\u{205f}', '\u{3000}'] {
        assert!(is_whitespace(c));
        assert_eq!(is_whitespace(c), c.is_whitespace());
    }
    for c in ['a', '\u{200b}', '\u{180e}', '\u{feff}', '\u{1f}', '\u{2100}'] {
        assert!(!is_whitespace(c));
        assert_eq!(is_whitespace(c), c.is_whitespace());
    }
    for u in 0u32..0x3100 {
        if let Some(c) = char::from_u32(u) {
            assert_eq!(is_whitespace(c), c.is_whitespace(), "{u:#x}");
        }
    }
}

#[test]
fn status_request_checks() {
    assert_eq!(check_status_request("link:a:b"), Ok(()));
    assert_eq!(check_status_request("invalid"), Err(ApiError::BadRequest));
}

#[test]
fn notices_per_agent() {
    let check = |a: &str, c: &str| UnreadCheck { agent_id: s(a), channel_id: s(c) };
    let checks = vec![check("bob", "link:bob:alice"), check("alice", "link:alice:bob"), check("bob", "link:bob:carol")];
    let counts = vec![2, 0, 3];
    let got: Vec<(String, usize, String)> =
        notices(&checks, &counts).into_iter().map(|n| (n.agent_id, n.count, n.text)).collect();
    assert_eq!(got, vec![(s("bob"), 5, s("You have 5 unread message(s) in your link channels"))]);
    assert!(notices(&checks, &vec![0, 0, 0]).is_empty());
}
