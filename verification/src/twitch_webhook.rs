//! Ingestion of the platform's webhook deliveries: the gates that a delivery
//! passes, in order, and the answer that it gets.

use vstd::prelude::*;
use crate::bytes::{text_eq, text_of};
use crate::dedup::{deadline, live, DedupCache};
use crate::json::{is_json_document, json_document, json_text, json_text_at};
use crate::mac::{hex_of, hmac_sha256};
use crate::subscription_manager::{normalized, recipients, streamer_login, SubscriptionManager};
use twitch_api::eventsub::Event;

verus! {

/// The largest body, in bytes, that a delivery may have.
pub const MAX_BODY_SIZE: u64 = 64 * 1024;

/// The length of a well-formed signature header: `sha256=` and 64 hexadecimal digits.
pub const SIGNATURE_LENGTH: usize = 71;

pub const STATUS_OK: u16 = 200;

pub const STATUS_BAD_REQUEST: u16 = 400;

pub const STATUS_PAYLOAD_TOO_LARGE: u16 = 413;

/// One delivery as it arrived: the values of its headers, where present, and its body.
#[derive(Clone, Debug, PartialEq, Eq)]
pub struct Delivery {
    /// `Twitch-Eventsub-Message-Id`
    pub message_id: Option<Vec<u8>>,
    /// `Twitch-Eventsub-Message-Timestamp`
    pub message_timestamp: Option<Vec<u8>>,
    /// `Twitch-Eventsub-Message-Signature`
    pub message_signature: Option<Vec<u8>>,
    /// `Twitch-Eventsub-Message-Type`
    pub message_type: Option<String>,
    /// The size that the sender declared for the body, if it declared one.
    pub declared_size: Option<u64>,
    pub body: Vec<u8>,
}

/// The members of a delivery's JSON body that the endpoint reads.
#[derive(Clone, Debug, PartialEq, Eq)]
pub struct Envelope {
    /// `/challenge`
    pub challenge: Option<String>,
    /// `/subscription/type`
    pub subscription_type: Option<String>,
    /// `/subscription/version`
    pub subscription_version: Option<String>,
    /// `/event/broadcaster_user_id`
    pub broadcaster_user_id: Option<String>,
    /// `/event/broadcaster_user_login`
    pub broadcaster_user_login: Option<String>,
    /// `/event/started_at`
    pub started_at: Option<String>,
}

/// An envelope as the texts of its members.
pub struct EnvelopeView {
    pub challenge: Option<Seq<char>>,
    pub subscription_type: Option<Seq<char>>,
    pub subscription_version: Option<Seq<char>>,
    pub broadcaster_user_id: Option<Seq<char>>,
    pub broadcaster_user_login: Option<Seq<char>>,
    pub started_at: Option<Seq<char>>,
}

impl View for Envelope {
    type V = EnvelopeView;

    open spec fn view(&self) -> EnvelopeView {
        EnvelopeView {
            challenge: text_of(self.challenge),
            subscription_type: text_of(self.subscription_type),
            subscription_version: text_of(self.subscription_version),
            broadcaster_user_id: text_of(self.broadcaster_user_id),
            broadcaster_user_login: text_of(self.broadcaster_user_login),
            started_at: text_of(self.started_at),
        }
    }
}

/// What a delivery turned out to be.
#[derive(Clone, Debug, PartialEq, Eq)]
pub enum Message {
    /// The handshake for a new registration, with the challenge to send back.
    Verification { challenge: String },
    /// The platform withdrew a registration.
    Revocation,
    /// A streamer went live.
    StreamOnline {
        broadcaster_user_id: Option<String>,
        broadcaster_user_login: String,
        started_at: String,
    },
    /// A notification of a kind that this endpoint does not handle.
    Other,
    /// Not a message that the endpoint can read.
    Malformed,
}

/// A message as the texts of its members.
pub enum MessageView {
    Verification { challenge: Seq<char> },
    Revocation,
    StreamOnline {
        broadcaster_user_id: Option<Seq<char>>,
        broadcaster_user_login: Seq<char>,
        started_at: Seq<char>,
    },
    Other,
    Malformed,
}

impl View for Message {
    type V = MessageView;

    open spec fn view(&self) -> MessageView {
        match *self {
            Message::Verification { challenge } => MessageView::Verification { challenge: challenge@ },
            Message::Revocation => MessageView::Revocation,
            Message::StreamOnline {
                broadcaster_user_id,
                broadcaster_user_login,
                started_at,
            } => MessageView::StreamOnline {
                broadcaster_user_id: text_of(broadcaster_user_id),
                broadcaster_user_login: broadcaster_user_login@,
                started_at: started_at@,
            },
            Message::Other => MessageView::Other,
            Message::Malformed => MessageView::Malformed,
        }
    }
}

/// The answer to a delivery.
#[derive(Clone, Debug, PartialEq, Eq)]
pub struct Reply {
    pub status: u16,
    pub body: String,
}

/// What is handed to the notifier when a streamer went live.
#[derive(Clone, Debug, PartialEq, Eq)]
pub struct Notice {
    pub streamer: String,
    pub started_at: String,
    pub recipients: Vec<u64>,
}

/// A notice as texts, with the recipients as a set.
pub struct NoticeView {
    pub streamer: Seq<char>,
    pub started_at: Seq<char>,
    pub recipients: Set<u64>,
}

impl View for Notice {
    type V = NoticeView;

    open spec fn view(&self) -> NoticeView {
        NoticeView {
            streamer: self.streamer@,
            started_at: self.started_at@,
            recipients: self.recipients@.to_set(),
        }
    }
}

/// The answer to a delivery and, where a streamer went live, the notice for
/// the notifier.
#[derive(Clone, Debug, PartialEq, Eq)]
pub struct Handled {
    pub reply: Reply,
    pub notice: Option<Notice>,
}

/// What a delivery gets: the status and the body of the answer, and the notice.
pub struct HandledView {
    pub status: u16,
    pub body: Seq<char>,
    pub notice: Option<NoticeView>,
}

impl View for Handled {
    type V = HandledView;

    open spec fn view(&self) -> HandledView {
        HandledView {
            status: self.reply.status,
            body: self.reply.body@,
            notice: match self.notice {
                Some(notice) => Some(notice@),
                None => None,
            },
        }
    }
}

/// Whether the size gate lets a body through: neither the size that the
/// sender declared, if it declared one, nor the size of what arrived is over
/// the ceiling.
pub open spec fn size_allowed(declared: Option<u64>, observed: nat) -> bool {
    &&& declared matches Some(size) ==> size <= MAX_BODY_SIZE
    &&& observed <= MAX_BODY_SIZE
}

/// Whether `twitch_api`'s `Event::verify_payload` accepts a request with these
/// header values and this body under `secret`.
pub uninterp spec fn eventsub_signature_valid(
    secret: Seq<u8>,
    id: Seq<u8>,
    timestamp: Seq<u8>,
    signature: Seq<u8>,
    body: Seq<u8>,
) -> bool;

/// Whether every byte of `value` may stand in the value of a header: it is
/// a tab, or neither a control character nor the delete character.
pub open spec fn header_value(value: Seq<u8>) -> bool {
    forall|i: int|
        0 <= i < value.len() ==> (#[trigger] value[i] >= 32 && value[i] != 127) || value[i] == 9
}

/// The bytes of `sha256=`, with which a signature header begins.
pub open spec fn signature_prefix() -> Seq<u8> {
    seq![0x73u8, 0x68u8, 0x61u8, 0x32u8, 0x35u8, 0x36u8, 0x3du8]
}

/// The signature header with which the platform signs a delivery under
/// `secret`: `sha256=` and the hexadecimal text of the HMAC-SHA256, under
/// `secret`, of the id, the timestamp and the body, one after the other.
pub open spec fn platform_signature(
    secret: Seq<u8>,
    id: Seq<u8>,
    timestamp: Seq<u8>,
    body: Seq<u8>,
) -> Seq<u8> {
    signature_prefix() + hex_of(hmac_sha256(secret, id + timestamp + body)).map_values(
        |digit: char| digit as u8,
    )
}

/// Whether the signature gate lets a delivery through: the three signing
/// headers are there, the signature has the length of a well-formed one, and
/// it is the platform's signature of the delivery under `secret`.
pub open spec fn signature_accepted(delivery: Delivery, secret: Seq<u8>) -> bool {
    &&& delivery.message_id matches Some(id)
    &&& delivery.message_timestamp matches Some(timestamp)
    &&& delivery.message_signature matches Some(signature)
    &&& signature@.len() == SIGNATURE_LENGTH
    &&& eventsub_signature_valid(secret, id@, timestamp@, signature@, delivery.body@)
}

/// Whether a delivery carries the signature with which the platform signs it
/// under `secret`: its id and its timestamp are values that a header can
/// hold, and its signature header is `platform_signature` of them and of the body.
pub open spec fn correctly_signed(delivery: Delivery, secret: Seq<u8>) -> bool {
    &&& delivery.message_id matches Some(id)
    &&& delivery.message_timestamp matches Some(timestamp)
    &&& delivery.message_signature matches Some(signature)
    &&& header_value(id@)
    &&& header_value(timestamp@)
    &&& signature@.len() == SIGNATURE_LENGTH
    &&& signature@ == platform_signature(secret, id@, timestamp@, delivery.body@)
}

/// The members that the endpoint reads out of `body`; `None` where the body
/// is no JSON document.
pub open spec fn envelope_of(body: Seq<u8>) -> Option<EnvelopeView> {
    if json_document(body) {
        Some(
            EnvelopeView {
                challenge: json_text(body, "/challenge"@),
                subscription_type: json_text(body, "/subscription/type"@),
                subscription_version: json_text(body, "/subscription/version"@),
                broadcaster_user_id: json_text(body, "/event/broadcaster_user_id"@),
                broadcaster_user_login: json_text(body, "/event/broadcaster_user_login"@),
                started_at: json_text(body, "/event/started_at"@),
            },
        )
    } else {
        None
    }
}

/// The texts of an envelope that may be missing.
pub open spec fn envelope_view(envelope: Option<Envelope>) -> Option<EnvelopeView> {
    match envelope {
        Some(e) => Some(e@),
        None => None,
    }
}

/// What a delivery with this message type is, whose body is a JSON document
/// with these members.
pub open spec fn classified_members(
    message_type: Option<Seq<char>>,
    envelope: EnvelopeView,
) -> MessageView {
    if message_type == Some("webhook_callback_verification"@) {
        match envelope.challenge {
            Some(challenge) => MessageView::Verification { challenge },
            None => MessageView::Malformed,
        }
    } else if message_type == Some("revocation"@) {
        MessageView::Revocation
    } else if message_type == Some("notification"@) {
        if envelope.subscription_type is None || envelope.subscription_version is None {
            MessageView::Malformed
        } else if envelope.subscription_type == Some("stream.online"@)
            && envelope.subscription_version == Some("1"@) {
            match (envelope.broadcaster_user_login, envelope.started_at) {
                (Some(login), Some(started_at)) => MessageView::StreamOnline {
                    broadcaster_user_id: envelope.broadcaster_user_id,
                    broadcaster_user_login: login,
                    started_at,
                },
                _ => MessageView::Malformed,
            }
        } else {
            MessageView::Other
        }
    } else {
        MessageView::Malformed
    }
}

/// What a delivery with this message type and this reading of its body is.
/// A body that is no JSON document makes the delivery malformed, whatever its
/// message type is.
pub open spec fn classified(
    message_type: Option<Seq<char>>,
    envelope: Option<EnvelopeView>,
) -> MessageView {
    match envelope {
        Some(members) => classified_members(message_type, members),
        None => MessageView::Malformed,
    }
}

/// What a delivery with this message type and this body is.
pub open spec fn decoded(message_type: Option<Seq<char>>, body: Seq<u8>) -> MessageView {
    classified(message_type, envelope_of(body))
}

/// The answer to a message, with the notice for the notifier where a streamer
/// went live.
pub open spec fn answer_to(message: MessageView, index: Set<(Seq<char>, u64)>) -> HandledView {
    match message {
        MessageView::Verification { challenge } => HandledView {
            status: STATUS_OK,
            body: challenge,
            notice: None,
        },
        MessageView::Revocation => HandledView { status: STATUS_OK, body: ""@, notice: None },
        MessageView::StreamOnline {
            broadcaster_user_id,
            broadcaster_user_login,
            started_at,
        } => HandledView {
            status: STATUS_OK,
            body: ""@,
            notice: Some(
                NoticeView {
                    streamer: normalized(broadcaster_user_login),
                    started_at,
                    recipients: recipients(index, normalized(broadcaster_user_login)),
                },
            ),
        },
        MessageView::Other => HandledView { status: STATUS_OK, body: ""@, notice: None },
        MessageView::Malformed => HandledView {
            status: STATUS_BAD_REQUEST,
            body: "Malformed payload"@,
            notice: None,
        },
    }
}

/// What the endpoint does with a delivery at the instant `now`: the answer,
/// the notice, and what the deduplication cache remembers afterwards. The
/// gates stand in this order: size, signature, duplicate, message.
pub open spec fn ingested(
    delivery: Delivery,
    secret: Seq<u8>,
    now: u64,
    ttl: u64,
    records: Set<(Seq<u8>, u64)>,
    index: Set<(Seq<char>, u64)>,
) -> (HandledView, Set<(Seq<u8>, u64)>) {
    if !size_allowed(delivery.declared_size, delivery.body@.len()) {
        (HandledView { status: STATUS_PAYLOAD_TOO_LARGE, body: ""@, notice: None }, records)
    } else if !signature_accepted(delivery, secret) {
        (
            HandledView { status: STATUS_BAD_REQUEST, body: "Invalid signature"@, notice: None },
            records,
        )
    } else if live(records, delivery.message_id->0@, now) {
        (HandledView { status: STATUS_OK, body: ""@, notice: None }, records)
    } else {
        (
            answer_to(decoded(text_of(delivery.message_type), delivery.body@), index),
            records.insert((delivery.message_id->0@, deadline(now, ttl))),
        )
    }
}

/// Whether the size gate lets a body of `observed` bytes through, of which
/// the sender declared `declared`.
pub fn size_gate(declared: Option<u64>, observed: usize) -> (allowed: bool)
    ensures
        allowed == size_allowed(declared, observed as nat),
{
    match declared {
        Some(size) => size <= MAX_BODY_SIZE && observed as u64 <= MAX_BODY_SIZE,
        None => observed as u64 <= MAX_BODY_SIZE,
    }
}

/// `twitch_api::eventsub::Event::verify_payload` on a request that carries
/// the three signing headers with these values and this body. The result is a
/// function of the arguments alone; it is `false` where a value cannot stand
/// in a header. It is `true` for the signature that the outside function
/// computes itself: the HMAC-SHA256 under `secret` of id, timestamp and body,
/// in lower-case hexadecimal digits after `sha256=`. A signature of another
/// length is kept out: the outside function panics on one that decodes to
/// other than 32 bytes.
#[verifier::external_body]
fn verify_payload(
    secret: &[u8],
    id: &[u8],
    timestamp: &[u8],
    signature: &[u8],
    body: &[u8],
) -> (valid: bool)
    requires
        signature@.len() == SIGNATURE_LENGTH,
    ensures
        valid == eventsub_signature_valid(secret@, id@, timestamp@, signature@, body@),
        header_value(id@) && header_value(timestamp@) && signature@ == platform_signature(
            secret@,
            id@,
            timestamp@,
            body@,
        ) ==> valid,
{
    let request = http::Request::builder()
        .header("Twitch-Eventsub-Message-Id", id)
        .header("Twitch-Eventsub-Message-Timestamp", timestamp)
        .header("Twitch-Eventsub-Message-Signature", signature)
        .body(body);
    match request {
        Ok(request) => Event::verify_payload(&request, secret),
        Err(_) => false,
    }
}

/// Whether the signature gate lets the delivery through. A delivery that
/// carries the platform's signature under `secret` is let through.
pub fn signature_gate(delivery: &Delivery, secret: &[u8]) -> (accepted: bool)
    ensures
        accepted == signature_accepted(*delivery, secret@),
        correctly_signed(*delivery, secret@) ==> accepted,
{
    match &delivery.message_id {
        Some(id) => match &delivery.message_timestamp {
            Some(timestamp) => match &delivery.message_signature {
                Some(signature) => {
                    if signature.len() == SIGNATURE_LENGTH {
                        verify_payload(
                            secret,
                            id.as_slice(),
                            timestamp.as_slice(),
                            signature.as_slice(),
                            delivery.body.as_slice(),
                        )
                    } else {
                        false
                    }
                },
                None => false,
            },
            None => false,
        },
        None => false,
    }
}

/// What a delivery with this message type and this reading of its body is:
/// `envelope` holds the members of the body, and is `None` where the body is
/// no JSON document.
pub fn classify(message_type: Option<&str>, envelope: Option<Envelope>) -> (message: Message)
    ensures
        message@ == classified(
            match message_type {
                Some(t) => Some(t@),
                None => None,
            },
            envelope_view(envelope),
        ),
{
    let envelope = match envelope {
        Some(envelope) => envelope,
        None => {
            return Message::Malformed;
        },
    };
    let kind = match message_type {
        Some(kind) => kind,
        None => {
            return Message::Malformed;
        },
    };
    if text_eq(kind, "webhook_callback_verification") {
        match envelope.challenge {
            Some(challenge) => Message::Verification { challenge },
            None => Message::Malformed,
        }
    } else if text_eq(kind, "revocation") {
        Message::Revocation
    } else if text_eq(kind, "notification") {
        let subscription_type = match envelope.subscription_type {
            Some(t) => t,
            None => {
                return Message::Malformed;
            },
        };
        let subscription_version = match envelope.subscription_version {
            Some(v) => v,
            None => {
                return Message::Malformed;
            },
        };
        if text_eq(subscription_type.as_str(), "stream.online") && text_eq(
            subscription_version.as_str(),
            "1",
        ) {
            match envelope.broadcaster_user_login {
                Some(broadcaster_user_login) => match envelope.started_at {
                    Some(started_at) => Message::StreamOnline {
                        broadcaster_user_id: envelope.broadcaster_user_id,
                        broadcaster_user_login,
                        started_at,
                    },
                    None => Message::Malformed,
                },
                None => Message::Malformed,
            }
        } else {
            Message::Other
        }
    } else {
        Message::Malformed
    }
}

/// Says what the delivery is. The body has to be a JSON document, whatever
/// the message type is; of its members, those that the message type asks for
/// are read.
///
/// The endpoint reads the body by its members and not through the platform
/// library's typed parser, `Event::parse_http`: that one asks for two more
/// headers and for every member of the platform's payload types, where a
/// delivery is good here with the message type and the members above.
pub fn decode(delivery: &Delivery) -> (message: Message)
    ensures
        message@ == decoded(text_of(delivery.message_type), delivery.body@),
{
    let body = delivery.body.as_slice();
    let kind = match &delivery.message_type {
        Some(kind) => Some(kind.as_str()),
        None => None,
    };
    if !is_json_document(body) {
        return classify(kind, None);
    }
    let mut envelope = Envelope {
        challenge: None,
        subscription_type: None,
        subscription_version: None,
        broadcaster_user_id: None,
        broadcaster_user_login: None,
        started_at: None,
    };
    match kind {
        Some(kind) => {
            if text_eq(kind, "webhook_callback_verification") {
                envelope.challenge = json_text_at(body, "/challenge");
            } else if text_eq(kind, "notification") {
                envelope.subscription_type = json_text_at(body, "/subscription/type");
                envelope.subscription_version = json_text_at(body, "/subscription/version");
                envelope.broadcaster_user_id = json_text_at(body, "/event/broadcaster_user_id");
                envelope.broadcaster_user_login = json_text_at(body, "/event/broadcaster_user_login");
                envelope.started_at = json_text_at(body, "/event/started_at");
            }
        },
        None => {},
    }
    classify(kind, Some(envelope))
}

/// The answer to a message; where a streamer went live, the notice names the
/// streamer's recipients, each once.
pub fn respond(message: Message, manager: &SubscriptionManager) -> (handled: Handled)
    requires
        manager.wf(),
    ensures
        handled@ == answer_to(message@, manager@),
        handled.notice matches Some(notice) ==> notice.recipients@.no_duplicates(),
{
    match message {
        Message::Verification { challenge } => Handled {
            reply: Reply { status: STATUS_OK, body: challenge },
            notice: None,
        },
        Message::Revocation => Handled {
            reply: Reply { status: STATUS_OK, body: "".to_owned() },
            notice: None,
        },
        Message::StreamOnline { broadcaster_user_id, broadcaster_user_login, started_at } => {
            let recipients = manager.recipients_of(broadcaster_user_login.as_str());
            let streamer = streamer_login(broadcaster_user_login.as_str());
            Handled {
                reply: Reply { status: STATUS_OK, body: "".to_owned() },
                notice: Some(Notice { streamer, started_at, recipients }),
            }
        },
        Message::Other => Handled {
            reply: Reply { status: STATUS_OK, body: "".to_owned() },
            notice: None,
        },
        Message::Malformed => Handled {
            reply: Reply { status: STATUS_BAD_REQUEST, body: "Malformed payload".to_owned() },
            notice: None,
        },
    }
}

/// Handles one delivery at the instant `now`: lets it through the size gate,
/// the signature gate and the duplicate gate, in this order, then reads it
/// and answers. A delivery that passes the duplicate gate is remembered for
/// `ttl` milliseconds before it is read. A delivery within the size that
/// carries the platform's signature under `secret` passes the signature gate.
pub fn twitch_eventsub(
    delivery: &Delivery,
    secret: &[u8],
    now: u64,
    ttl: u64,
    cache: &mut DedupCache,
    manager: &SubscriptionManager,
) -> (handled: Handled)
    requires
        manager.wf(),
    ensures
        handled@ == ingested(*delivery, secret@, now, ttl, old(cache)@, manager@).0,
        final(cache)@ == ingested(*delivery, secret@, now, ttl, old(cache)@, manager@).1,
        handled.notice matches Some(notice) ==> notice.recipients@.no_duplicates(),
        size_allowed(delivery.declared_size, delivery.body@.len()) && correctly_signed(
            *delivery,
            secret@,
        ) ==> signature_accepted(*delivery, secret@),
{
    if !size_gate(delivery.declared_size, delivery.body.len()) {
        return Handled {
            reply: Reply { status: STATUS_PAYLOAD_TOO_LARGE, body: "".to_owned() },
            notice: None,
        };
    }
    if !signature_gate(delivery, secret) {
        return Handled {
            reply: Reply { status: STATUS_BAD_REQUEST, body: "Invalid signature".to_owned() },
            notice: None,
        };
    }
    let fresh = match &delivery.message_id {
        Some(id) => cache.record_if_absent(id.as_slice(), now, ttl),
        None => true,
    };
    if !fresh {
        return Handled { reply: Reply { status: STATUS_OK, body: "".to_owned() }, notice: None };
    }
    respond(decode(delivery), manager)
}

/// Every delivery gets a definite answer: 200, 400 or 413. A notice goes to
/// the notifier only together with the answer 200.
pub proof fn lemma_answer_is_definite(
    delivery: Delivery,
    secret: Seq<u8>,
    now: u64,
    ttl: u64,
    records: Set<(Seq<u8>, u64)>,
    index: Set<(Seq<char>, u64)>,
)
    ensures
        ({
            let answer = ingested(delivery, secret, now, ttl, records, index).0;
            &&& answer.status == STATUS_OK || answer.status == STATUS_BAD_REQUEST || answer.status
                == STATUS_PAYLOAD_TOO_LARGE
            &&& answer.notice is Some ==> answer.status == STATUS_OK
        }),
{
}

/// A delivery whose body is no JSON document is answered 400, whatever its
/// message type is: nothing is handed to the notifier, and the delivery is
/// remembered as every delivery that passes the gates before.
pub proof fn lemma_malformed_body_is_refused(
    delivery: Delivery,
    secret: Seq<u8>,
    now: u64,
    ttl: u64,
    records: Set<(Seq<u8>, u64)>,
    index: Set<(Seq<char>, u64)>,
)
    requires
        size_allowed(delivery.declared_size, delivery.body@.len()),
        signature_accepted(delivery, secret),
        !live(records, delivery.message_id->0@, now),
        !json_document(delivery.body@),
    ensures
        ingested(delivery, secret, now, ttl, records, index) == (
            HandledView { status: STATUS_BAD_REQUEST, body: "Malformed payload"@, notice: None },
            records.insert((delivery.message_id->0@, deadline(now, ttl))),
        ),
{
}

/// The signature gate stands before the reading of the body: a delivery that
/// fails it is answered 400 "Invalid signature" whatever its body holds and
/// whatever a JSON decoder would make of it; nothing is remembered and
/// nothing is handed to the notifier.
pub proof fn lemma_signature_gate_precedes_parsing(
    delivery: Delivery,
    secret: Seq<u8>,
    now: u64,
    ttl: u64,
    records: Set<(Seq<u8>, u64)>,
    index: Set<(Seq<char>, u64)>,
)
    requires
        size_allowed(delivery.declared_size, delivery.body@.len()),
        !signature_accepted(delivery, secret),
    ensures
        ingested(delivery, secret, now, ttl, records, index) == (
            HandledView { status: STATUS_BAD_REQUEST, body: "Invalid signature"@, notice: None },
            records,
        ),
{
}

/// A delivery whose id was new at `now` and comes again no later than `ttl`
/// after `now` is answered 200 with an empty body, and nothing is handed to
/// the notifier a second time. This holds whenever the cache was swept in
/// between (a sweep at the instant 0 drops nothing).
pub proof fn lemma_redelivery_is_not_dispatched(
    first: Delivery,
    again: Delivery,
    secret: Seq<u8>,
    now: u64,
    swept_at: u64,
    later: u64,
    ttl: u64,
    records: Set<(Seq<u8>, u64)>,
    index: Set<(Seq<char>, u64)>,
)
    requires
        size_allowed(first.declared_size, first.body@.len()),
        signature_accepted(first, secret),
        !live(records, first.message_id->0@, now),
        size_allowed(again.declared_size, again.body@.len()),
        signature_accepted(again, secret),
        again.message_id->0@ == first.message_id->0@,
        swept_at <= later <= deadline(now, ttl),
    ensures
        ({
            let remembered = crate::dedup::unexpired(
                ingested(first, secret, now, ttl, records, index).1,
                swept_at,
            );
            ingested(again, secret, later, ttl, remembered, index) == (
                HandledView { status: STATUS_OK, body: ""@, notice: None },
                remembered,
            )
        }),
{
    let id = first.message_id->0@;
    let after = ingested(first, secret, now, ttl, records, index).1;
    crate::dedup::lemma_redelivery_is_seen(records, id, now, ttl, later);
    crate::dedup::lemma_sweep_keeps_live(after, id, swept_at, later);
}

/// A delivery whose id was new at `now` and comes again later than `ttl`
/// after `now` is handled as a new one: it is read, answered and remembered
/// again. This holds whenever the cache was swept in between.
pub proof fn lemma_expired_redelivery_is_dispatched(
    first: Delivery,
    again: Delivery,
    secret: Seq<u8>,
    now: u64,
    swept_at: u64,
    later: u64,
    ttl: u64,
    records: Set<(Seq<u8>, u64)>,
    index: Set<(Seq<char>, u64)>,
)
    requires
        size_allowed(first.declared_size, first.body@.len()),
        signature_accepted(first, secret),
        !live(records, first.message_id->0@, now),
        size_allowed(again.declared_size, again.body@.len()),
        signature_accepted(again, secret),
        again.message_id->0@ == first.message_id->0@,
        swept_at <= later,
        deadline(now, ttl) < later,
    ensures
        ({
            let remembered = crate::dedup::unexpired(
                ingested(first, secret, now, ttl, records, index).1,
                swept_at,
            );
            ingested(again, secret, later, ttl, remembered, index) == (
                answer_to(decoded(text_of(again.message_type), again.body@), index),
                remembered.insert((again.message_id->0@, deadline(later, ttl))),
            )
        }),
{
    let id = first.message_id->0@;
    let after = ingested(first, secret, now, ttl, records, index).1;
    crate::dedup::lemma_expired_is_new(records, id, now, ttl, later);
    crate::dedup::lemma_sweep_keeps_live(after, id, swept_at, later);
}

} // verus!
