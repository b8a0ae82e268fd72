use twitch_notifier::registration::{
    callback_url, eventsub_register, online_exists, ExternalRegistration, NewRegistration,
    RegistrationError, RegistrationStep, TwitchWebhookServer, EVENTSUB_PATH,
};
use twitch_notifier::subscription_manager::SubscriptionManager;

const CALLBACK: &str = "https://example.org/twitch/eventsub/";

fn online(broadcaster: &str, callback: &str) -> ExternalRegistration {
    ExternalRegistration {
        event_type: "stream.online".to_string(),
        version: "1".to_string(),
        broadcaster_user_id: Some(broadcaster.to_string()),
        callback: Some(callback.to_string()),
        enabled: true,
    }
}

fn desired(streamers: &[&str]) -> SubscriptionManager {
    let mut manager = SubscriptionManager::new();
    for streamer in streamers {
        manager.subscribe(1, streamer.to_string());
    }
    manager
}

fn sorted(mut values: Vec<String>) -> Vec<String> {
    values.sort();
    values
}

fn texts(values: &[&str]) -> Vec<String> {
    values.iter().map(|v| v.to_string()).collect()
}

fn platform_id(streamer: &str) -> String {
    format!("id-of-{}", streamer)
}

#[test]
fn callback_url_appends_the_path() {
    assert_eq!(EVENTSUB_PATH, "/twitch/eventsub/");
    assert_eq!(callback_url("https://example.org"), CALLBACK);
    assert_eq!(callback_url(""), "/twitch/eventsub/");
}

#[test]
fn online_exists_matches_all_four_members() {
    let listed = vec![online("12826", CALLBACK)];
    assert!(online_exists(&listed, CALLBACK, "12826"));
    assert!(!online_exists(&listed, CALLBACK, "99999"));
    assert!(!online_exists(&listed, "https://elsewhere.org/twitch/eventsub/", "12826"));
    assert!(!online_exists(&Vec::new(), CALLBACK, "12826"));

    let mut offline = online("12826", CALLBACK);
    offline.event_type = "stream.offline".to_string();
    assert!(!online_exists(&vec![offline], CALLBACK, "12826"));

    let mut second_version = online("12826", CALLBACK);
    second_version.version = "2".to_string();
    assert!(!online_exists(&vec![second_version], CALLBACK, "12826"));
}

#[test]
fn online_exists_skips_what_is_not_an_enabled_webhook() {
    let mut websocket = online("12826", CALLBACK);
    websocket.callback = None;
    let mut disabled = online("12826", CALLBACK);
    disabled.enabled = false;
    let mut without_condition = online("12826", CALLBACK);
    without_condition.broadcaster_user_id = None;
    let listed = vec![websocket, disabled, without_condition];
    assert!(!online_exists(&listed, CALLBACK, "12826"));
    let mut with_match = listed.clone();
    with_match.push(online("12826", CALLBACK));
    assert!(online_exists(&with_match, CALLBACK, "12826"));
}

#[test]
fn unresolved_login_registers_nothing() {
    let step = eventsub_register(None, &Vec::new(), CALLBACK.to_string(), "secret".to_string());
    assert_eq!(step, RegistrationStep::Unresolved);
}

#[test]
fn existing_registration_is_not_created_again() {
    let listed = vec![online("1", CALLBACK), online("12826", CALLBACK)];
    let step = eventsub_register(
        Some("12826".to_string()),
        &listed,
        CALLBACK.to_string(),
        "secret".to_string(),
    );
    assert_eq!(
        step,
        RegistrationStep::AlreadyRegistered { broadcaster_user_id: "12826".to_string() }
    );
}

#[test]
fn missing_registration_is_created() {
    let listed = vec![online("1", CALLBACK)];
    let step = eventsub_register(
        Some("12826".to_string()),
        &listed,
        CALLBACK.to_string(),
        "secret".to_string(),
    );
    assert_eq!(
        step,
        RegistrationStep::Create(NewRegistration {
            event_type: "stream.online".to_string(),
            version: "1".to_string(),
            broadcaster_user_id: "12826".to_string(),
            callback: CALLBACK.to_string(),
            secret: "secret".to_string(),
        })
    );
}

#[test]
fn first_pass_attempts_each_desired_streamer_once() {
    let manager = desired(&["a", "b", "c"]);
    let server = TwitchWebhookServer::new();
    assert_eq!(sorted(server.check_subscriptions(&manager)), texts(&["a", "b", "c"]));
}

#[test]
fn create_calls_stabilize_after_one_pass() {
    let manager = desired(&["a", "b", "c"]);
    let mut server = TwitchWebhookServer::new();
    let mut listed: Vec<ExternalRegistration> = Vec::new();
    let mut create_calls = 0;
    for _tick in 0..5 {
        for streamer in server.check_subscriptions(&manager) {
            let id = platform_id(&streamer);
            let step = eventsub_register(
                Some(id.clone()),
                &listed,
                CALLBACK.to_string(),
                "secret".to_string(),
            );
            match step {
                RegistrationStep::Create(new) => {
                    create_calls += 1;
                    listed.push(online(&new.broadcaster_user_id, &new.callback));
                    assert!(server.subscribe(streamer, Ok(id)));
                }
                RegistrationStep::AlreadyRegistered { broadcaster_user_id } => {
                    assert!(server.subscribe(streamer, Ok(broadcaster_user_id)));
                }
                RegistrationStep::Unresolved => unreachable!(),
            }
        }
    }
    assert_eq!(create_calls, 3);
    assert_eq!(listed.len(), 3);
    assert!(server.check_subscriptions(&manager).is_empty());
}

#[test]
fn registration_held_by_the_platform_is_confirmed_without_create() {
    let manager = desired(&["a"]);
    let mut server = TwitchWebhookServer::new();
    let listed = vec![online(&platform_id("a"), CALLBACK)];
    let attempts = server.check_subscriptions(&manager);
    assert_eq!(attempts, texts(&["a"]));
    let step = eventsub_register(
        Some(platform_id("a")),
        &listed,
        CALLBACK.to_string(),
        "secret".to_string(),
    );
    assert_eq!(step, RegistrationStep::AlreadyRegistered { broadcaster_user_id: platform_id("a") });
    assert!(server.subscribe("a".to_string(), Ok(platform_id("a"))));
    assert!(server.is_subscribed("a"));
    assert!(server.check_subscriptions(&manager).is_empty());
}

#[test]
fn failed_attempt_is_retried_at_the_next_tick() {
    let manager = desired(&["a", "b"]);
    let mut server = TwitchWebhookServer::new();
    for error in [
        RegistrationError::NotFound,
        RegistrationError::Conflict,
        RegistrationError::RateLimited,
        RegistrationError::Unauthorized,
        RegistrationError::Transient,
    ] {
        assert!(!server.subscribe("a".to_string(), Err(error)));
        assert!(!server.is_subscribed("a"));
        assert_eq!(sorted(server.check_subscriptions(&manager)), texts(&["a", "b"]));
    }
    assert!(server.subscribe("b".to_string(), Ok(platform_id("b"))));
    assert_eq!(server.check_subscriptions(&manager), texts(&["a"]));
}

#[test]
fn streamer_without_recipients_is_not_attempted() {
    let mut manager = desired(&["a", "b"]);
    manager.unsubscribe(1, "b".to_string());
    let server = TwitchWebhookServer::new();
    assert_eq!(server.check_subscriptions(&manager), texts(&["a"]));
    assert!(TwitchWebhookServer::new()
        .check_subscriptions(&SubscriptionManager::new())
        .is_empty());
}

#[test]
fn new_streamer_is_attempted_at_the_next_tick() {
    let mut manager = desired(&["a"]);
    let mut server = TwitchWebhookServer::new();
    server.subscribe("a".to_string(), Ok(platform_id("a")));
    assert!(server.check_subscriptions(&manager).is_empty());
    manager.subscribe(2, "d".to_string());
    assert_eq!(server.check_subscriptions(&manager), texts(&["d"]));
}

#[test]
fn refresh_heals_from_revocation() {
    let manager = desired(&["a", "b", "c"]);
    let mut server = TwitchWebhookServer::new();
    for streamer in ["a", "b", "c"] {
        server.subscribe(streamer.to_string(), Ok(platform_id(streamer)));
    }
    let listed = vec![
        online(&platform_id("a"), CALLBACK),
        online(&platform_id("c"), "https://elsewhere.org/twitch/eventsub/"),
    ];
    server.refresh(&manager, &listed, CALLBACK);
    assert!(server.is_subscribed("a"));
    assert!(!server.is_subscribed("b"));
    assert!(!server.is_subscribed("c"));
    assert_eq!(sorted(server.check_subscriptions(&manager)), texts(&["b", "c"]));
}

#[test]
fn refresh_drops_streamers_that_are_no_longer_desired() {
    let mut manager = desired(&["a", "b"]);
    let mut server = TwitchWebhookServer::new();
    server.subscribe("a".to_string(), Ok(platform_id("a")));
    server.subscribe("b".to_string(), Ok(platform_id("b")));
    manager.unsubscribe(1, "b".to_string());
    let listed = vec![online(&platform_id("a"), CALLBACK), online(&platform_id("b"), CALLBACK)];
    server.refresh(&manager, &listed, CALLBACK);
    assert!(server.is_subscribed("a"));
    assert!(!server.is_subscribed("b"));
}

#[test]
fn refresh_confirms_nothing_by_itself() {
    let manager = desired(&["a"]);
    let mut server = TwitchWebhookServer::new();
    server.refresh(&manager, &vec![online(&platform_id("a"), CALLBACK)], CALLBACK);
    assert!(!server.is_subscribed("a"));
}

#[test]
fn status_names_the_kind_of_failure() {
    assert_eq!(RegistrationError::from_status(401), RegistrationError::Unauthorized);
    assert_eq!(RegistrationError::from_status(403), RegistrationError::Unauthorized);
    assert_eq!(RegistrationError::from_status(404), RegistrationError::NotFound);
    assert_eq!(RegistrationError::from_status(409), RegistrationError::Conflict);
    assert_eq!(RegistrationError::from_status(429), RegistrationError::RateLimited);
    for status in [400u16, 408, 500, 502, 503, 504, 0, 65535] {
        assert_eq!(RegistrationError::from_status(status), RegistrationError::Transient);
    }
}
