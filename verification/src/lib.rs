//! Subscription bookkeeping, registration reconciliation and webhook ingestion
//! for "stream went live" notifications.

pub mod auth;
pub mod bytes;
pub mod config;
pub mod dedup;
pub mod held;
pub mod json;
pub mod mac;
pub mod registration;
pub mod repository;
pub mod subscription_manager;
pub mod twitch_webhook;
pub mod validation;
