//! The settings that the service starts with.
//!
//! What is said of a text here is said of its UTF-8 bytes.

use vstd::prelude::*;
use vstd::string::StringExecFns;
use vstd::utf8::encode_utf8;
use crate::bytes::text_eq;

verus! {

/// The settings of the service. All of them are required.
#[derive(Clone, Debug, PartialEq, Eq)]
pub struct Config {
    pub telegram_bot_token: String,
    pub telegram_webhook_url: String,
    pub telegram_webhook_port: u16,
    pub telegram_mini_app_port: u16,
    pub twitch_client_id: String,
    pub twitch_client_secret: String,
    pub twitch_signing_secret: String,
    pub twitch_webhook_url: String,
    pub twitch_webhook_port: u16,
    pub mongodb_connection_string: String,
}

/// One setting, in the order in which the settings are read.
#[derive(Clone, Copy, Debug, PartialEq, Eq, Structural)]
pub enum Setting {
    BotToken,
    TelegramWebhookUrl,
    TelegramWebhookPort,
    TelegramMiniAppPort,
    TwitchClientId,
    TwitchClientSecret,
    TwitchSigningSecret,
    TwitchWebhookUrl,
    TwitchWebhookPort,
    MongodbConnectionString,
}

/// Why the settings could not be read.
#[derive(Clone, Copy, Debug, PartialEq, Eq, Structural)]
pub enum ConfigError {
    /// The environment does not hold the variable.
    NotSet(Setting),
    /// The variable does not hold a port number.
    InvalidPort(Setting),
}

/// The name of the environment variable that holds `setting`.
pub open spec fn variable(setting: Setting) -> Seq<char> {
    match setting {
        Setting::BotToken => "BOT_TOKEN"@,
        Setting::TelegramWebhookUrl => "TELEGRAM_WEBHOOK_URL"@,
        Setting::TelegramWebhookPort => "TELEGRAM_WEBHOOK_PORT"@,
        Setting::TelegramMiniAppPort => "TELEGRAM_MINI_APP_PORT"@,
        Setting::TwitchClientId => "TWITCH_CLIENT_ID"@,
        Setting::TwitchClientSecret => "TWITCH_CLIENT_SECRET"@,
        Setting::TwitchSigningSecret => "TWITCH_SIGNING_SECRET"@,
        Setting::TwitchWebhookUrl => "TWITCH_WEBHOOK_URL"@,
        Setting::TwitchWebhookPort => "TWITCH_WEBHOOK_PORT"@,
        Setting::MongodbConnectionString => "MONGODB_CONNECTION_STRING"@,
    }
}

/// Whether `setting` is a port number.
pub open spec fn is_port(setting: Setting) -> bool {
    setting == Setting::TelegramWebhookPort || setting == Setting::TelegramMiniAppPort || setting
        == Setting::TwitchWebhookPort
}

/// The value of the first variable named `name`, from the position `from` on.
pub open spec fn value_of(environment: Seq<(String, String)>, name: Seq<char>, from: int) -> Option<
    Seq<char>,
>
    decreases environment.len() - from,
{
    if from < 0 || from >= environment.len() {
        None
    } else if environment[from].0@ == name {
        Some(environment[from].1@)
    } else {
        value_of(environment, name, from + 1)
    }
}

/// The number that a sequence of decimal digits stands for.
pub open spec fn decimal(digits: Seq<u8>) -> nat
    decreases digits.len(),
{
    if digits.len() == 0 {
        0
    } else {
        decimal(digits.drop_last()) * 10 + (digits.last() - 0x30) as nat
    }
}

/// Whether every byte of `bytes` is an ASCII decimal digit.
pub open spec fn all_digits(bytes: Seq<u8>) -> bool {
    forall|i: int| 0 <= i < bytes.len() ==> 0x30 <= #[trigger] bytes[i] <= 0x39
}

/// The digits of a number text: the text without one leading `+`, if it has one.
pub open spec fn unsigned_part(text: Seq<u8>) -> Seq<u8> {
    if text.len() > 0 && text[0] == 0x2bu8 {
        text.subrange(1, text.len() as int)
    } else {
        text
    }
}

/// The port that `text` stands for: at least one decimal digit, after at most
/// one `+`, with a value of at most 65535.
pub open spec fn port_of(text: Seq<u8>) -> Option<u16> {
    let digits = unsigned_part(text);
    if digits.len() > 0 && all_digits(digits) && decimal(digits) <= 65535 {
        Some(decimal(digits) as u16)
    } else {
        None
    }
}

/// What is wrong with `setting` in `environment`, if anything.
pub open spec fn fault_of(environment: Seq<(String, String)>, setting: Setting) -> Option<ConfigError> {
    match value_of(environment, variable(setting), 0) {
        None => Some(ConfigError::NotSet(setting)),
        Some(text) => if is_port(setting) && port_of(encode_utf8(text)) is None {
            Some(ConfigError::InvalidPort(setting))
        } else {
            None
        },
    }
}

/// The settings in the order in which they are read.
pub open spec fn reading_order() -> Seq<Setting> {
    seq![
        Setting::BotToken,
        Setting::TelegramWebhookUrl,
        Setting::TelegramWebhookPort,
        Setting::TelegramMiniAppPort,
        Setting::TwitchClientId,
        Setting::TwitchClientSecret,
        Setting::TwitchSigningSecret,
        Setting::TwitchWebhookUrl,
        Setting::TwitchWebhookPort,
        Setting::MongodbConnectionString,
    ]
}

/// The fault of the first faulty setting among `reading_order()` from the
/// position `from` on.
pub open spec fn first_fault(environment: Seq<(String, String)>, from: int) -> Option<ConfigError>
    decreases reading_order().len() - from,
{
    if from < 0 || from >= reading_order().len() {
        None
    } else if fault_of(environment, reading_order()[from]) is Some {
        fault_of(environment, reading_order()[from])
    } else {
        first_fault(environment, from + 1)
    }
}

/// The text of `setting` in `environment`.
pub open spec fn text_in(environment: Seq<(String, String)>, setting: Setting) -> Seq<char> {
    value_of(environment, variable(setting), 0)->0
}

/// The port that `setting` holds in `environment`.
pub open spec fn port_in(environment: Seq<(String, String)>, setting: Setting) -> u16 {
    port_of(encode_utf8(text_in(environment, setting)))->0
}

impl Setting {
    /// The name of the environment variable that holds the setting.
    pub fn name(self) -> (name: &'static str)
        ensures
            name@ == variable(self),
    {
        match self {
            Setting::BotToken => "BOT_TOKEN",
            Setting::TelegramWebhookUrl => "TELEGRAM_WEBHOOK_URL",
            Setting::TelegramWebhookPort => "TELEGRAM_WEBHOOK_PORT",
            Setting::TelegramMiniAppPort => "TELEGRAM_MINI_APP_PORT",
            Setting::TwitchClientId => "TWITCH_CLIENT_ID",
            Setting::TwitchClientSecret => "TWITCH_CLIENT_SECRET",
            Setting::TwitchSigningSecret => "TWITCH_SIGNING_SECRET",
            Setting::TwitchWebhookUrl => "TWITCH_WEBHOOK_URL",
            Setting::TwitchWebhookPort => "TWITCH_WEBHOOK_PORT",
            Setting::MongodbConnectionString => "MONGODB_CONNECTION_STRING",
        }
    }
}

impl ConfigError {
    /// The message with which the service refuses to start.
    pub fn message(&self) -> (text: String)
        ensures
            text@ == match *self {
                ConfigError::NotSet(setting) => variable(setting) + " is not set"@,
                ConfigError::InvalidPort(setting) => variable(setting) + " is not a valid u16"@,
            },
    {
        match *self {
            ConfigError::NotSet(setting) => String::from_str(setting.name()).concat(" is not set"),
            ConfigError::InvalidPort(setting) => String::from_str(setting.name()).concat(
                " is not a valid u16",
            ),
        }
    }
}

/// The port that `text` stands for.
pub fn parse_port(text: &str) -> (port: Option<u16>)
    ensures
        port == port_of(encode_utf8(text@)),
{
    let bytes = text.as_bytes();
    let total: usize = bytes.len();
    let start: usize = if total > 0 && bytes[0] == 0x2b {
        1
    } else {
        0
    };
    let ghost digits = unsigned_part(bytes@);
    assert(digits =~= bytes@.subrange(start as int, total as int));
    if start == total {
        return None;
    }
    let mut value: u32 = 0;
    let mut too_large = false;
    let mut i: usize = start;
    assert(digits.subrange(0, 0) =~= Seq::<u8>::empty());
    while i < total
        invariant
            start <= i <= total == bytes@.len(),
            bytes@ == encode_utf8(text@),
            digits == unsigned_part(bytes@),
            digits == bytes@.subrange(start as int, total as int),
            all_digits(digits.subrange(0, i - start)),
            !too_large ==> value == decimal(digits.subrange(0, i - start)) && value <= 65535,
            too_large ==> decimal(digits.subrange(0, i - start)) > 65535,
        decreases total - i,
    {
        let b = bytes[i];
        let ghost before = digits.subrange(0, i - start);
        let ghost after = digits.subrange(0, i - start + 1);
        assert(after.drop_last() =~= before);
        assert(after.last() == b);
        if b < 0x30 || b > 0x39 {
            assert(!all_digits(digits)) by {
                assert(digits[i - start] == b);
            }
            return None;
        }
        assert(all_digits(after)) by {
            assert forall|j: int| 0 <= j < after.len() implies 0x30 <= #[trigger] after[j]
                <= 0x39 by {
                if j < before.len() {
                    assert(after[j] == before[j]);
                }
            }
        }
        if !too_large {
            value = value * 10 + (b - 0x30) as u32;
            if value > 65535 {
                too_large = true;
            }
        } else {
            assert(decimal(after) >= decimal(before)) by (nonlinear_arith)
                requires
                    decimal(after) == decimal(before) * 10 + (b - 0x30) as nat,
                    b >= 0x30,
            ;
        }
        i += 1;
    }
    assert(digits.subrange(0, total - start) =~= digits);
    if too_large {
        None
    } else {
        Some(value as u16)
    }
}

/// The value of the first variable named `name`.
fn lookup<'a>(environment: &'a Vec<(String, String)>, name: &str) -> (value: Option<&'a String>)
    ensures
        match value_of(environment@, name@, 0) {
            Some(text) => value matches Some(found) && found@ == text,
            None => value is None,
        },
{
    let mut i: usize = 0;
    while i < environment.len()
        invariant
            i <= environment@.len(),
            value_of(environment@, name@, 0) == value_of(environment@, name@, i as int),
        decreases environment@.len() - i,
    {
        if text_eq(environment[i].0.as_str(), name) {
            return Some(&environment[i].1);
        }
        i += 1;
    }
    None
}

/// The text of a setting that has to be there.
fn required(environment: &Vec<(String, String)>, setting: Setting) -> (text: Result<
    String,
    ConfigError,
>)
    requires
        !is_port(setting),
    ensures
        match fault_of(environment@, setting) {
            Some(fault) => text == Err::<String, ConfigError>(fault),
            None => text matches Ok(found) && found@ == text_in(environment@, setting),
        },
{
    match lookup(environment, setting.name()) {
        Some(found) => Ok(found.clone()),
        None => Err(ConfigError::NotSet(setting)),
    }
}

/// The port of a setting that has to be there.
fn required_port(environment: &Vec<(String, String)>, setting: Setting) -> (port: Result<
    u16,
    ConfigError,
>)
    requires
        is_port(setting),
    ensures
        match fault_of(environment@, setting) {
            Some(fault) => port == Err::<u16, ConfigError>(fault),
            None => port == Ok::<u16, ConfigError>(port_in(environment@, setting)),
        },
{
    match lookup(environment, setting.name()) {
        Some(found) => match parse_port(found.as_str()) {
            Some(port) => Ok(port),
            None => Err(ConfigError::InvalidPort(setting)),
        },
        None => Err(ConfigError::NotSet(setting)),
    }
}

impl Config {
    /// Reads the settings out of the variables of the environment. Every
    /// setting has to be there, and every port has to be a port number: the
    /// first setting that is not, in reading order, is the error.
    pub fn load(environment: &Vec<(String, String)>) -> (loaded: Result<Config, ConfigError>)
        ensures
            match first_fault(environment@, 0) {
                Some(fault) => loaded matches Err(e) && e == fault,
                None => loaded matches Ok(config) && config.telegram_bot_token@ == text_in(
                    environment@,
                    Setting::BotToken,
                ) && config.telegram_webhook_url@ == text_in(
                    environment@,
                    Setting::TelegramWebhookUrl,
                ) && config.telegram_webhook_port == port_in(
                    environment@,
                    Setting::TelegramWebhookPort,
                ) && config.telegram_mini_app_port == port_in(
                    environment@,
                    Setting::TelegramMiniAppPort,
                ) && config.twitch_client_id@ == text_in(environment@, Setting::TwitchClientId)
                    && config.twitch_client_secret@ == text_in(
                    environment@,
                    Setting::TwitchClientSecret,
                ) && config.twitch_signing_secret@ == text_in(
                    environment@,
                    Setting::TwitchSigningSecret,
                ) && config.twitch_webhook_url@ == text_in(environment@, Setting::TwitchWebhookUrl)
                    && config.twitch_webhook_port == port_in(
                    environment@,
                    Setting::TwitchWebhookPort,
                ) && config.mongodb_connection_string@ == text_in(
                    environment@,
                    Setting::MongodbConnectionString,
                ),
            },
    {
        proof {
            reveal_with_fuel(first_fault, 11);
        }
        let telegram_bot_token = match required(environment, Setting::BotToken) {
            Ok(text) => text,
            Err(fault) => {
                return Err(fault);
            },
        };
        let telegram_webhook_url = match required(environment, Setting::TelegramWebhookUrl) {
            Ok(text) => text,
            Err(fault) => {
                return Err(fault);
            },
        };
        let telegram_webhook_port = match required_port(environment, Setting::TelegramWebhookPort) {
            Ok(port) => port,
            Err(fault) => {
                return Err(fault);
            },
        };
        let telegram_mini_app_port = match required_port(environment, Setting::TelegramMiniAppPort) {
            Ok(port) => port,
            Err(fault) => {
                return Err(fault);
            },
        };
        let twitch_client_id = match required(environment, Setting::TwitchClientId) {
            Ok(text) => text,
            Err(fault) => {
                return Err(fault);
            },
        };
        let twitch_client_secret = match required(environment, Setting::TwitchClientSecret) {
            Ok(text) => text,
            Err(fault) => {
                return Err(fault);
            },
        };
        let twitch_signing_secret = match required(environment, Setting::TwitchSigningSecret) {
            Ok(text) => text,
            Err(fault) => {
                return Err(fault);
            },
        };
        let twitch_webhook_url = match required(environment, Setting::TwitchWebhookUrl) {
            Ok(text) => text,
            Err(fault) => {
                return Err(fault);
            },
        };
        let twitch_webhook_port = match required_port(environment, Setting::TwitchWebhookPort) {
            Ok(port) => port,
            Err(fault) => {
                return Err(fault);
            },
        };
        let mongodb_connection_string = match required(
            environment,
            Setting::MongodbConnectionString,
        ) {
            Ok(text) => text,
            Err(fault) => {
                return Err(fault);
            },
        };
        Ok(
            Config {
                telegram_bot_token,
                telegram_webhook_url,
                telegram_webhook_port,
                telegram_mini_app_port,
                twitch_client_id,
                twitch_client_secret,
                twitch_signing_secret,
                twitch_webhook_url,
                twitch_webhook_port,
                mongodb_connection_string,
            },
        )
    }
}

} // verus!
