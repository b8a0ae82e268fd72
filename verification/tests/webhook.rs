use hmac::{Hmac, Mac};
use sha2::Sha256;
use twitch_notifier::dedup::DedupCache;
use twitch_notifier::subscription_manager::SubscriptionManager;
use twitch_notifier::twitch_webhook::{
    classify, decode, respond, signature_gate, size_gate, twitch_eventsub, Delivery, Envelope,
    Handled, Message, Notice, Reply, MAX_BODY_SIZE,
};

const SECRET: &[u8] = b"s3cre7s3cre7";
const MESSAGE_ID: &[u8] = b"e76c6bd4-55c9-4987-8304-da1588d8988b";
const TIMESTAMP: &[u8] = b"2024-05-01T12:00:00.000Z";
const TTL: u64 = 3_600_000;
const ONLINE: &str = "{\"subscription\":{\"id\":\"f1c2a387\",\"type\":\"stream.online\",\"version\":\"1\",\"status\":\"enabled\"},\"event\":{\"id\":\"9001\",\"broadcaster_user_id\":\"12826\",\"broadcaster_user_login\":\"kurbezz\",\"broadcaster_user_name\":\"Kurbezz\",\"type\":\"live\",\"started_at\":\"2024-05-01T11:59:30Z\"}}";

fn signature(secret: &[u8], id: &[u8], timestamp: &[u8], body: &[u8]) -> Vec<u8> {
    let mut mac = Hmac::<Sha256>::new_from_slice(secret).unwrap();
    mac.update(id);
    mac.update(timestamp);
    mac.update(body);
    format!("sha256={}", hex::encode(mac.finalize().into_bytes())).into_bytes()
}

fn signed(id: &[u8], message_type: &str, body: &[u8]) -> Delivery {
    Delivery {
        message_id: Some(id.to_vec()),
        message_timestamp: Some(TIMESTAMP.to_vec()),
        message_signature: Some(signature(SECRET, id, TIMESTAMP, body)),
        message_type: Some(message_type.to_string()),
        declared_size: Some(body.len() as u64),
        body: body.to_vec(),
    }
}

fn reply(status: u16, body: &str) -> Handled {
    Handled { reply: Reply { status, body: body.to_string() }, notice: None }
}

fn followers() -> SubscriptionManager {
    let mut manager = SubscriptionManager::new();
    manager.subscribe(111, "kurbezz".to_string());
    manager.subscribe(222, "kurbezz".to_string());
    manager.subscribe(333, "someone_else".to_string());
    manager
}

fn no_members() -> Envelope {
    Envelope {
        challenge: None,
        subscription_type: None,
        subscription_version: None,
        broadcaster_user_id: None,
        broadcaster_user_login: None,
        started_at: None,
    }
}

fn sorted_recipients(handled: &Handled) -> Vec<u64> {
    let mut recipients = handled.notice.as_ref().unwrap().recipients.clone();
    recipients.sort();
    recipients
}

#[test]
fn verification_challenge_is_echoed() {
    let mut cache = DedupCache::new();
    let manager = SubscriptionManager::new();
    let body = b"{\"challenge\":\"abc123\"}";
    let mut delivery = signed(MESSAGE_ID, "webhook_callback_verification", body);
    delivery.message_signature = Some(
        b"sha256=642cff8a8c419547ad6d0da350386fa5a0abf77b32dbd4d256793649a7e10f52".to_vec(),
    );
    let handled = twitch_eventsub(&delivery, SECRET, 0, TTL, &mut cache, &manager);
    assert_eq!(handled, reply(200, "abc123"));
}

#[test]
fn went_live_notification_is_handed_to_the_notifier() {
    let mut cache = DedupCache::new();
    let manager = followers();
    let mut delivery = signed(MESSAGE_ID, "notification", ONLINE.as_bytes());
    delivery.message_signature = Some(
        b"sha256=83b9341a69746082f0fcc496911f77fc61f6501a9ad6c4651eca8bcdd08b3c36".to_vec(),
    );
    let handled = twitch_eventsub(&delivery, SECRET, 0, TTL, &mut cache, &manager);
    assert_eq!(handled.reply, Reply { status: 200, body: String::new() });
    let notice = handled.notice.as_ref().unwrap();
    assert_eq!(notice.streamer, "kurbezz");
    assert_eq!(notice.started_at, "2024-05-01T11:59:30Z");
    assert_eq!(sorted_recipients(&handled), vec![111, 222]);
}

#[test]
fn same_delivery_twice_is_dispatched_once() {
    let mut cache = DedupCache::new();
    let manager = followers();
    let delivery = signed(MESSAGE_ID, "notification", ONLINE.as_bytes());
    let first = twitch_eventsub(&delivery, SECRET, 1_000, TTL, &mut cache, &manager);
    let second = twitch_eventsub(&delivery, SECRET, 1_000 + TTL, TTL, &mut cache, &manager);
    assert!(first.notice.is_some());
    assert_eq!(second, reply(200, ""));
}

#[test]
fn delivery_after_the_ttl_is_dispatched_again() {
    let mut cache = DedupCache::new();
    let manager = followers();
    let delivery = signed(MESSAGE_ID, "notification", ONLINE.as_bytes());
    let first = twitch_eventsub(&delivery, SECRET, 1_000, TTL, &mut cache, &manager);
    cache.sweep(1_000 + TTL / 2);
    let second = twitch_eventsub(&delivery, SECRET, 1_001 + TTL, TTL, &mut cache, &manager);
    assert!(first.notice.is_some());
    assert_eq!(sorted_recipients(&second), vec![111, 222]);
    let third = twitch_eventsub(&delivery, SECRET, 1_002 + TTL, TTL, &mut cache, &manager);
    assert_eq!(third, reply(200, ""));
}

#[test]
fn different_delivery_ids_are_both_dispatched() {
    let mut cache = DedupCache::new();
    let manager = followers();
    let first = signed(b"id-1", "notification", ONLINE.as_bytes());
    let second = signed(b"id-2", "notification", ONLINE.as_bytes());
    assert!(twitch_eventsub(&first, SECRET, 0, TTL, &mut cache, &manager).notice.is_some());
    assert!(twitch_eventsub(&second, SECRET, 0, TTL, &mut cache, &manager).notice.is_some());
}

#[test]
fn invalid_signature_is_rejected_before_the_body_is_read() {
    let mut cache = DedupCache::new();
    let manager = followers();
    let mut delivery = signed(MESSAGE_ID, "notification", ONLINE.as_bytes());
    delivery.message_signature = Some(signature(b"another secret", MESSAGE_ID, TIMESTAMP, ONLINE.as_bytes()));
    let handled = twitch_eventsub(&delivery, SECRET, 0, TTL, &mut cache, &manager);
    assert_eq!(handled, reply(400, "Invalid signature"));
    assert!(!cache.seen(MESSAGE_ID, 0));
}

#[test]
fn invalid_signature_wins_over_malformed_body() {
    let mut cache = DedupCache::new();
    let manager = followers();
    let mut delivery = signed(MESSAGE_ID, "notification", b"{not json");
    delivery.message_signature = Some(signature(SECRET, MESSAGE_ID, TIMESTAMP, b"other body"));
    let handled = twitch_eventsub(&delivery, SECRET, 0, TTL, &mut cache, &manager);
    assert_eq!(handled, reply(400, "Invalid signature"));
}

#[test]
fn tampered_body_fails_the_signature_gate() {
    let mut delivery = signed(MESSAGE_ID, "notification", ONLINE.as_bytes());
    assert!(signature_gate(&delivery, SECRET));
    delivery.body[5] ^= 1;
    assert!(!signature_gate(&delivery, SECRET));
}

#[test]
fn signature_covers_id_and_timestamp() {
    let mut delivery = signed(MESSAGE_ID, "notification", ONLINE.as_bytes());
    delivery.message_id = Some(b"another-id".to_vec());
    assert!(!signature_gate(&delivery, SECRET));
    let mut delivery = signed(MESSAGE_ID, "notification", ONLINE.as_bytes());
    delivery.message_timestamp = Some(b"2024-05-01T12:00:01.000Z".to_vec());
    assert!(!signature_gate(&delivery, SECRET));
}

#[test]
fn missing_signing_headers_fail_the_signature_gate() {
    let complete = signed(MESSAGE_ID, "notification", ONLINE.as_bytes());
    let mut delivery = complete.clone();
    delivery.message_id = None;
    assert!(!signature_gate(&delivery, SECRET));
    let mut delivery = complete.clone();
    delivery.message_timestamp = None;
    assert!(!signature_gate(&delivery, SECRET));
    let mut delivery = complete.clone();
    delivery.message_signature = None;
    assert!(!signature_gate(&delivery, SECRET));
    assert!(signature_gate(&complete, SECRET));
}

#[test]
fn signature_of_another_length_is_rejected() {
    let mut cache = DedupCache::new();
    let manager = followers();
    for text in ["sha256=", "sha256=ab", "sha256=abcd", "", "sha256"] {
        let mut delivery = signed(MESSAGE_ID, "notification", ONLINE.as_bytes());
        delivery.message_signature = Some(text.as_bytes().to_vec());
        let handled = twitch_eventsub(&delivery, SECRET, 0, TTL, &mut cache, &manager);
        assert_eq!(handled, reply(400, "Invalid signature"));
    }
    let mut delivery = signed(MESSAGE_ID, "notification", ONLINE.as_bytes());
    let mut long = delivery.message_signature.clone().unwrap();
    long.extend_from_slice(b"00");
    delivery.message_signature = Some(long);
    assert!(!signature_gate(&delivery, SECRET));
}

#[test]
fn signature_that_is_not_hexadecimal_is_rejected() {
    let mut delivery = signed(MESSAGE_ID, "notification", ONLINE.as_bytes());
    let mut text = delivery.message_signature.clone().unwrap();
    text[10] = b'z';
    delivery.message_signature = Some(text);
    assert!(!signature_gate(&delivery, SECRET));
    let mut text = signature(SECRET, MESSAGE_ID, TIMESTAMP, ONLINE.as_bytes());
    text[0] = b'S';
    delivery.message_signature = Some(text);
    assert!(!signature_gate(&delivery, SECRET));
}

#[test]
fn header_value_that_cannot_stand_in_a_header_is_rejected() {
    let id = b"line\nbreak";
    let delivery = signed(id, "notification", ONLINE.as_bytes());
    assert!(!signature_gate(&delivery, SECRET));
}

#[test]
fn oversized_body_is_rejected() {
    let mut cache = DedupCache::new();
    let manager = followers();
    let body = vec![b' '; MAX_BODY_SIZE as usize + 1];
    let delivery = signed(MESSAGE_ID, "notification", &body);
    let handled = twitch_eventsub(&delivery, SECRET, 0, TTL, &mut cache, &manager);
    assert_eq!(handled, reply(413, ""));
    assert!(!cache.seen(MESSAGE_ID, 0));
}

#[test]
fn size_gate_goes_by_declared_and_observed_size() {
    assert_eq!(MAX_BODY_SIZE, 65_536);
    assert!(size_gate(Some(0), 0));
    assert!(size_gate(Some(65_536), 65_536));
    assert!(!size_gate(Some(65_537), 10));
    assert!(!size_gate(Some(10), 65_537));
    assert!(size_gate(None, 10));
    assert!(size_gate(None, 65_536));
    assert!(!size_gate(None, 65_537));
}

#[test]
fn declared_size_over_the_ceiling_is_rejected() {
    let mut cache = DedupCache::new();
    let manager = followers();
    let mut delivery = signed(MESSAGE_ID, "notification", ONLINE.as_bytes());
    delivery.declared_size = Some(MAX_BODY_SIZE + 1);
    let handled = twitch_eventsub(&delivery, SECRET, 0, TTL, &mut cache, &manager);
    assert_eq!(handled, reply(413, ""));
}

#[test]
fn body_without_declared_size_is_let_through() {
    let mut cache = DedupCache::new();
    let manager = followers();
    let mut delivery = signed(MESSAGE_ID, "notification", ONLINE.as_bytes());
    delivery.declared_size = None;
    let handled = twitch_eventsub(&delivery, SECRET, 0, TTL, &mut cache, &manager);
    assert_eq!(handled.reply, Reply { status: 200, body: String::new() });
    assert!(handled.notice.is_some());
}

#[test]
fn body_at_the_ceiling_is_let_through() {
    let mut cache = DedupCache::new();
    let manager = followers();
    let mut body = b"{\"challenge\":\"c\"}".to_vec();
    body.resize(MAX_BODY_SIZE as usize, b' ');
    let delivery = signed(MESSAGE_ID, "webhook_callback_verification", &body);
    let handled = twitch_eventsub(&delivery, SECRET, 0, TTL, &mut cache, &manager);
    assert_eq!(handled, reply(200, "c"));
}

#[test]
fn revocation_is_acknowledged() {
    let mut cache = DedupCache::new();
    let manager = followers();
    let delivery = signed(MESSAGE_ID, "revocation", ONLINE.as_bytes());
    let handled = twitch_eventsub(&delivery, SECRET, 0, TTL, &mut cache, &manager);
    assert_eq!(handled, reply(200, ""));
    let bare = signed(b"id-2", "revocation", b"{}");
    let handled = twitch_eventsub(&bare, SECRET, 0, TTL, &mut cache, &manager);
    assert_eq!(handled, reply(200, ""));
}

#[test]
fn body_that_is_no_json_is_a_bad_request_for_every_message_type() {
    let manager = followers();
    for kind in ["revocation", "notification", "webhook_callback_verification", "other"] {
        for body in ["{", "", "not json at all", "{\"challenge\":\"abc\"", "{} trailing"] {
            let mut cache = DedupCache::new();
            let delivery = signed(MESSAGE_ID, kind, body.as_bytes());
            let handled = twitch_eventsub(&delivery, SECRET, 5, TTL, &mut cache, &manager);
            assert_eq!(handled, reply(400, "Malformed payload"), "{} {:?}", kind, body);
            assert!(cache.seen(MESSAGE_ID, 5));
            assert_eq!(manager.recipients_of("kurbezz").len(), 2);
        }
    }
}

#[test]
fn malformed_json_is_a_bad_request() {
    let mut cache = DedupCache::new();
    let manager = followers();
    let delivery = signed(MESSAGE_ID, "notification", b"{\"subscription\":");
    let handled = twitch_eventsub(&delivery, SECRET, 0, TTL, &mut cache, &manager);
    assert_eq!(handled, reply(400, "Malformed payload"));
    assert!(cache.seen(MESSAGE_ID, 0));
}

#[test]
fn verification_without_challenge_is_a_bad_request() {
    let mut cache = DedupCache::new();
    let manager = followers();
    let delivery = signed(MESSAGE_ID, "webhook_callback_verification", b"{\"challenge\":7}");
    let handled = twitch_eventsub(&delivery, SECRET, 0, TTL, &mut cache, &manager);
    assert_eq!(handled, reply(400, "Malformed payload"));
}

#[test]
fn unknown_event_type_is_accepted_and_ignored() {
    let mut cache = DedupCache::new();
    let manager = followers();
    let body = b"{\"subscription\":{\"type\":\"channel.brand_new\",\"version\":\"3\"},\"event\":{\"broadcaster_user_login\":\"kurbezz\"}}";
    let delivery = signed(MESSAGE_ID, "notification", body);
    let handled = twitch_eventsub(&delivery, SECRET, 0, TTL, &mut cache, &manager);
    assert_eq!(handled, reply(200, ""));
}

#[test]
fn unknown_message_type_is_a_bad_request() {
    let mut cache = DedupCache::new();
    let manager = followers();
    let delivery = signed(MESSAGE_ID, "session_welcome", ONLINE.as_bytes());
    let handled = twitch_eventsub(&delivery, SECRET, 0, TTL, &mut cache, &manager);
    assert_eq!(handled, reply(400, "Malformed payload"));
    let mut delivery = signed(b"id-2", "notification", ONLINE.as_bytes());
    delivery.message_type = None;
    let handled = twitch_eventsub(&delivery, SECRET, 0, TTL, &mut cache, &manager);
    assert_eq!(handled, reply(400, "Malformed payload"));
}

#[test]
fn went_live_for_unknown_streamer_has_no_recipients() {
    let mut cache = DedupCache::new();
    let manager = SubscriptionManager::new();
    let delivery = signed(MESSAGE_ID, "notification", ONLINE.as_bytes());
    let handled = twitch_eventsub(&delivery, SECRET, 0, TTL, &mut cache, &manager);
    assert_eq!(handled.reply, Reply { status: 200, body: String::new() });
    assert_eq!(
        handled.notice,
        Some(Notice {
            streamer: "kurbezz".to_string(),
            started_at: "2024-05-01T11:59:30Z".to_string(),
            recipients: Vec::new(),
        })
    );
}

#[test]
fn classify_reads_the_message_type() {
    let mut envelope = no_members();
    envelope.challenge = Some("abc123".to_string());
    assert_eq!(
        classify(Some("webhook_callback_verification"), Some(envelope.clone())),
        Message::Verification { challenge: "abc123".to_string() }
    );
    assert_eq!(classify(Some("revocation"), Some(envelope.clone())), Message::Revocation);
    assert_eq!(classify(Some("notification"), Some(envelope.clone())), Message::Malformed);
    assert_eq!(classify(Some("Notification"), Some(envelope.clone())), Message::Malformed);
    assert_eq!(classify(None, Some(envelope)), Message::Malformed);
    assert_eq!(classify(Some("webhook_callback_verification"), Some(no_members())), Message::Malformed);
}

#[test]
fn classify_takes_a_body_that_is_no_json_as_malformed() {
    for kind in [
        Some("revocation"),
        Some("notification"),
        Some("webhook_callback_verification"),
        Some("other"),
        None,
    ] {
        assert_eq!(classify(kind, None), Message::Malformed);
    }
    assert_eq!(classify(Some("revocation"), Some(no_members())), Message::Revocation);
}

#[test]
fn classify_reads_the_went_live_schema() {
    let mut envelope = no_members();
    envelope.subscription_type = Some("stream.online".to_string());
    envelope.subscription_version = Some("1".to_string());
    envelope.broadcaster_user_login = Some("KurBezz".to_string());
    envelope.started_at = Some("2024-05-01T11:59:30Z".to_string());
    assert_eq!(
        classify(Some("notification"), Some(envelope.clone())),
        Message::StreamOnline {
            broadcaster_user_id: None,
            broadcaster_user_login: "KurBezz".to_string(),
            started_at: "2024-05-01T11:59:30Z".to_string(),
        }
    );
    let mut without_start = envelope.clone();
    without_start.started_at = None;
    assert_eq!(classify(Some("notification"), Some(without_start)), Message::Malformed);
    let mut without_login = envelope.clone();
    without_login.broadcaster_user_login = None;
    without_login.broadcaster_user_id = Some("12826".to_string());
    assert_eq!(classify(Some("notification"), Some(without_login)), Message::Malformed);
    let mut other_version = envelope.clone();
    other_version.subscription_version = Some("2".to_string());
    assert_eq!(classify(Some("notification"), Some(other_version)), Message::Other);
    let mut other_type = envelope.clone();
    other_type.subscription_type = Some("stream.offline".to_string());
    assert_eq!(classify(Some("notification"), Some(other_type)), Message::Other);
    let mut without_version = envelope;
    without_version.subscription_version = None;
    assert_eq!(classify(Some("notification"), Some(without_version)), Message::Malformed);
}

#[test]
fn decode_reads_members_by_pointer() {
    let delivery = signed(MESSAGE_ID, "notification", ONLINE.as_bytes());
    assert_eq!(
        decode(&delivery),
        Message::StreamOnline {
            broadcaster_user_id: Some("12826".to_string()),
            broadcaster_user_login: "kurbezz".to_string(),
            started_at: "2024-05-01T11:59:30Z".to_string(),
        }
    );
    let nested = signed(
        MESSAGE_ID,
        "webhook_callback_verification",
        b"{\"subscription\":{\"challenge\":\"inner\"},\"challenge\":\"outer\"}",
    );
    assert_eq!(decode(&nested), Message::Verification { challenge: "outer".to_string() });
}

#[test]
fn respond_answers_each_message() {
    let manager = followers();
    assert_eq!(
        respond(Message::Verification { challenge: "xyz".to_string() }, &manager),
        reply(200, "xyz")
    );
    assert_eq!(respond(Message::Revocation, &manager), reply(200, ""));
    assert_eq!(respond(Message::Other, &manager), reply(200, ""));
    assert_eq!(respond(Message::Malformed, &manager), reply(400, "Malformed payload"));
    let handled = respond(
        Message::StreamOnline {
            broadcaster_user_id: None,
            broadcaster_user_login: "KURBEZZ".to_string(),
            started_at: "now".to_string(),
        },
        &manager,
    );
    assert_eq!(handled.notice.as_ref().unwrap().streamer, "kurbezz");
    assert_eq!(sorted_recipients(&handled), vec![111, 222]);
}

#[test]
fn odd_signatures_of_the_right_length_are_rejected() {
    let mut candidates: Vec<Vec<u8>> = Vec::new();
    candidates.push(vec![0xff; 71]);
    candidates.push(vec![b' '; 71]);
    candidates.push(vec![b'\t'; 71]);
    candidates.push(vec![0; 71]);
    candidates.push(format!("sha256={}", "+f".repeat(32)).into_bytes());
    candidates.push(format!("sha256={}", "-1".repeat(32)).into_bytes());
    candidates.push(format!("sha256={}", "0".repeat(64)).into_bytes());
    candidates.push(format!("SHA256={}", "0".repeat(64)).into_bytes());
    candidates.push(format!("sha512={}", "0".repeat(64)).into_bytes());
    candidates.push(format!("sha256={}\u{e9}", "0".repeat(62)).into_bytes());
    for candidate in candidates {
        assert_eq!(candidate.len(), 71);
        let mut delivery = signed(MESSAGE_ID, "notification", ONLINE.as_bytes());
        delivery.message_signature = Some(candidate);
        assert!(!signature_gate(&delivery, SECRET));
    }
}

#[test]
fn signature_in_capital_digits_is_accepted() {
    let mut delivery = signed(MESSAGE_ID, "notification", ONLINE.as_bytes());
    let text = String::from_utf8(delivery.message_signature.clone().unwrap()).unwrap();
    let capital = format!("sha256={}", text[7..].to_uppercase());
    delivery.message_signature = Some(capital.into_bytes());
    assert!(signature_gate(&delivery, SECRET));
}

#[test]
fn empty_secret_and_empty_body_are_handled() {
    let body = b"";
    let delivery = Delivery {
        message_id: Some(b"id".to_vec()),
        message_timestamp: Some(b"ts".to_vec()),
        message_signature: Some(signature(b"", b"id", b"ts", body)),
        message_type: Some("revocation".to_string()),
        declared_size: Some(0),
        body: body.to_vec(),
    };
    assert!(signature_gate(&delivery, b""));
    assert!(!signature_gate(&delivery, SECRET));
    let mut cache = DedupCache::new();
    let handled = twitch_eventsub(&delivery, b"", 0, TTL, &mut cache, &SubscriptionManager::new());
    assert_eq!(handled, reply(400, "Malformed payload"));
}
