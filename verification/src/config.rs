//! The options of the plugin: how a value is read, checked and stored in the
//! configuration.

use vstd::prelude::*;
use crate::json::{json_as_bool, json_as_i64, json_as_str, json_get, json_model, member, JsonModel};
use crate::structs::{Config, ConfigView};
use crate::text::{chars_of, concat2, push_text, str_eq, trim_chars, trimmed, views_of};
use crate::util::{
    at_or_above, at_or_above_version, parse_i64, parse_i64_text, part_views, split_chars,
    split_on, VersionError,
};

verus! {

pub const OPT_AMBOSS: &'static str = "vitality-amboss";

pub const OPT_EXPIRING_HTLCS: &'static str = "vitality-expiring-htlcs";

pub const OPT_WATCH_CHANNELS: &'static str = "vitality-watch-channels";

pub const OPT_WATCH_GOSSIP: &'static str = "vitality-watch-gossip";

pub const OPT_TELEGRAM_TOKEN: &'static str = "vitality-telegram-token";

pub const OPT_TELEGRAM_USERNAMES: &'static str = "vitality-telegram-usernames";

pub const OPT_SMTP_USERNAME: &'static str = "vitality-smtp-username";

pub const OPT_SMTP_PASSWORD: &'static str = "vitality-smtp-password";

pub const OPT_SMTP_SERVER: &'static str = "vitality-smtp-server";

pub const OPT_SMTP_PORT: &'static str = "vitality-smtp-port";

pub const OPT_EMAIL_FROM: &'static str = "vitality-email-from";

pub const OPT_EMAIL_TO: &'static str = "vitality-email-to";

/// The node version from which on the newer interfaces are used.
pub const MIN_VERSION: &'static str = "24.11";

/// The options by name.
#[derive(Clone, Copy, Debug, PartialEq, Eq, Structural)]
pub enum OptionId {
    Amboss,
    ExpiringHtlcs,
    WatchChannels,
    WatchGossip,
    TelegramToken,
    TelegramUsernames,
    SmtpUsername,
    SmtpPassword,
    SmtpServer,
    SmtpPort,
    EmailFrom,
    EmailTo,
}

/// The value of an option.
#[derive(Clone, Debug, PartialEq, Eq)]
pub enum OptionValue {
    String(String),
    Integer(i64),
    Boolean(bool),
}

/// An option value with its text as a sequence of characters.
pub enum SettingView {
    Text(Seq<char>),
    Integer(i64),
    Boolean(bool),
}

impl View for OptionValue {
    type V = SettingView;

    open spec fn view(&self) -> SettingView {
        match *self {
            OptionValue::String(text) => SettingView::Text(text@),
            OptionValue::Integer(n) => SettingView::Integer(n),
            OptionValue::Boolean(b) => SettingView::Boolean(b),
        }
    }
}

/// Why a value was not accepted.
#[derive(Clone, Copy, Debug, PartialEq, Eq, Structural)]
pub enum ErrorKind {
    NotAnInteger,
    NotABoolean,
    NotAString,
    UnknownOption,
    /// The number does not fit the option.
    OutOfRange,
    /// The value is of another kind than the option.
    WrongKind,
    NoOptionName,
    OptionNameNotString,
    NoValue,
}

/// A refusal with the message for the user.
#[derive(Clone, Debug)]
pub struct ConfigError {
    pub kind: ErrorKind,
    pub message: String,
}

/// The message of a refusal of a value for the option `name`.
pub open spec fn error_text(kind: ErrorKind, name: Seq<char>) -> Seq<char> {
    match kind {
        ErrorKind::NotAnInteger => name + " is not a valid integer!"@,
        ErrorKind::NotABoolean => name + " is not a valid boolean!"@,
        ErrorKind::NotAString => name + " is not a valid string!"@,
        ErrorKind::UnknownOption => "Unknown option: "@ + name,
        ErrorKind::OutOfRange => "out of range integral type conversion attempted"@,
        ErrorKind::WrongKind => "Wrong kind of value for option: "@ + name,
        ErrorKind::NoOptionName => "Bad CLN object. No option name found!"@,
        ErrorKind::OptionNameNotString => "Bad CLN object. Option name not a string!"@,
        ErrorKind::NoValue => "Bad CLN object. No value found for option: "@ + name,
    }
}

/// Makes the refusal of kind `kind` for the option `name`.
pub fn config_error(kind: ErrorKind, name: &str) -> (error: ConfigError)
    ensures
        error.kind == kind,
        error.message@ == error_text(kind, name@),
{
    let message = match kind {
        ErrorKind::NotAnInteger => concat2(name, " is not a valid integer!"),
        ErrorKind::NotABoolean => concat2(name, " is not a valid boolean!"),
        ErrorKind::NotAString => concat2(name, " is not a valid string!"),
        ErrorKind::UnknownOption => concat2("Unknown option: ", name),
        ErrorKind::OutOfRange => String::from_str(
            "out of range integral type conversion attempted",
        ),
        ErrorKind::WrongKind => concat2("Wrong kind of value for option: ", name),
        ErrorKind::NoOptionName => String::from_str("Bad CLN object. No option name found!"),
        ErrorKind::OptionNameNotString => String::from_str(
            "Bad CLN object. Option name not a string!",
        ),
        ErrorKind::NoValue => concat2("Bad CLN object. No value found for option: ", name),
    };
    ConfigError { kind, message }
}

/// The option that `name` names.
pub open spec fn option_named(name: Seq<char>) -> Option<OptionId> {
    if name == OPT_AMBOSS@ {
        Some(OptionId::Amboss)
    } else if name == OPT_EXPIRING_HTLCS@ {
        Some(OptionId::ExpiringHtlcs)
    } else if name == OPT_WATCH_CHANNELS@ {
        Some(OptionId::WatchChannels)
    } else if name == OPT_WATCH_GOSSIP@ {
        Some(OptionId::WatchGossip)
    } else if name == OPT_TELEGRAM_TOKEN@ {
        Some(OptionId::TelegramToken)
    } else if name == OPT_TELEGRAM_USERNAMES@ {
        Some(OptionId::TelegramUsernames)
    } else if name == OPT_SMTP_USERNAME@ {
        Some(OptionId::SmtpUsername)
    } else if name == OPT_SMTP_PASSWORD@ {
        Some(OptionId::SmtpPassword)
    } else if name == OPT_SMTP_SERVER@ {
        Some(OptionId::SmtpServer)
    } else if name == OPT_SMTP_PORT@ {
        Some(OptionId::SmtpPort)
    } else if name == OPT_EMAIL_FROM@ {
        Some(OptionId::EmailFrom)
    } else if name == OPT_EMAIL_TO@ {
        Some(OptionId::EmailTo)
    } else {
        None
    }
}

/// Finds the option that `name` names.
pub fn find_option(name: &str) -> (r: Option<OptionId>)
    ensures
        r == option_named(name@),
{
    if str_eq(name, OPT_AMBOSS) {
        Some(OptionId::Amboss)
    } else if str_eq(name, OPT_EXPIRING_HTLCS) {
        Some(OptionId::ExpiringHtlcs)
    } else if str_eq(name, OPT_WATCH_CHANNELS) {
        Some(OptionId::WatchChannels)
    } else if str_eq(name, OPT_WATCH_GOSSIP) {
        Some(OptionId::WatchGossip)
    } else if str_eq(name, OPT_TELEGRAM_TOKEN) {
        Some(OptionId::TelegramToken)
    } else if str_eq(name, OPT_TELEGRAM_USERNAMES) {
        Some(OptionId::TelegramUsernames)
    } else if str_eq(name, OPT_SMTP_USERNAME) {
        Some(OptionId::SmtpUsername)
    } else if str_eq(name, OPT_SMTP_PASSWORD) {
        Some(OptionId::SmtpPassword)
    } else if str_eq(name, OPT_SMTP_SERVER) {
        Some(OptionId::SmtpServer)
    } else if str_eq(name, OPT_SMTP_PORT) {
        Some(OptionId::SmtpPort)
    } else if str_eq(name, OPT_EMAIL_FROM) {
        Some(OptionId::EmailFrom)
    } else if str_eq(name, OPT_EMAIL_TO) {
        Some(OptionId::EmailTo)
    } else {
        None
    }
}

/// The two words that stand for a boolean in an option.
pub open spec fn boolean_text(text: Seq<char>) -> Option<bool> {
    if text == "true"@ {
        Some(true)
    } else if text == "false"@ {
        Some(false)
    } else {
        None
    }
}

/// How the JSON value given for the option `name` is read. A number option
/// takes an integer or a text that is one, a switch takes a boolean or one of
/// the words `true` and `false`, and every other option takes a text.
pub open spec fn parsed_option(name: Seq<char>, value: JsonModel) -> Result<
    SettingView,
    ErrorKind,
> {
    if name == OPT_EXPIRING_HTLCS@ || name == OPT_SMTP_PORT@ {
        match value {
            JsonModel::Number(Some(n)) => Ok(SettingView::Integer(n)),
            JsonModel::Text(text) => match parse_i64_text(text) {
                Some(n) => Ok(SettingView::Integer(n)),
                None => Err(ErrorKind::NotAnInteger),
            },
            _ => Err(ErrorKind::NotAnInteger),
        }
    } else if name == OPT_AMBOSS@ || name == OPT_WATCH_CHANNELS@ || name == OPT_WATCH_GOSSIP@ {
        match value {
            JsonModel::Bool(b) => Ok(SettingView::Boolean(b)),
            JsonModel::Text(text) => match boolean_text(text) {
                Some(b) => Ok(SettingView::Boolean(b)),
                None => Err(ErrorKind::NotABoolean),
            },
            _ => Err(ErrorKind::NotABoolean),
        }
    } else {
        match value {
            JsonModel::Text(text) => Ok(SettingView::Text(text)),
            _ => Err(ErrorKind::NotAString),
        }
    }
}

/// Reads the JSON value given for the option `name`.
pub fn parse_option(name: &str, value: &serde_json::Value) -> (r: Result<OptionValue, ConfigError>)
    ensures
        match r {
            Ok(setting) => parsed_option(name@, json_model(*value)) == Ok::<
                SettingView,
                ErrorKind,
            >(setting@),
            Err(error) => parsed_option(name@, json_model(*value)) == Err::<
                SettingView,
                ErrorKind,
            >(error.kind) && error.message@ == error_text(error.kind, name@),
        },
{
    if str_eq(name, OPT_EXPIRING_HTLCS) || str_eq(name, OPT_SMTP_PORT) {
        match json_as_i64(value) {
            Some(n) => {
                return Ok(OptionValue::Integer(n));
            },
            None => {},
        }
        match json_as_str(value) {
            Some(text) => match parse_i64(&chars_of(text)) {
                Some(n) => {
                    return Ok(OptionValue::Integer(n));
                },
                None => {},
            },
            None => {},
        }
        Err(config_error(ErrorKind::NotAnInteger, name))
    } else if str_eq(name, OPT_AMBOSS) || str_eq(name, OPT_WATCH_CHANNELS) || str_eq(
        name,
        OPT_WATCH_GOSSIP,
    ) {
        match json_as_bool(value) {
            Some(b) => {
                return Ok(OptionValue::Boolean(b));
            },
            None => {},
        }
        match json_as_str(value) {
            Some(text) => {
                if str_eq(text, "true") {
                    return Ok(OptionValue::Boolean(true));
                } else if str_eq(text, "false") {
                    return Ok(OptionValue::Boolean(false));
                }
            },
            None => {},
        }
        Err(config_error(ErrorKind::NotABoolean, name))
    } else {
        match json_as_str(value) {
            Some(text) => Ok(OptionValue::String(String::from_str(text))),
            None => Err(config_error(ErrorKind::NotAString, name)),
        }
    }
}

/// The user names in a comma-separated list, each without the white space
/// around it.
pub open spec fn listed_names(text: Seq<char>) -> Seq<Seq<char>> {
    split_on(text, ',').map_values(|part: Seq<char>| trimmed(part))
}

/// The configuration after the option `name` got the value `value`, or why
/// the value is refused. A switch takes a boolean, the two number options
/// take an integer that fits their field, the others take a text; the user
/// names given are added to those already there.
pub open spec fn applied(config: ConfigView, name: Seq<char>, value: SettingView) -> Result<
    ConfigView,
    ErrorKind,
> {
    match option_named(name) {
        None => Err(ErrorKind::UnknownOption),
        Some(id) => match (id, value) {
            (OptionId::Amboss, SettingView::Boolean(b)) => Ok(ConfigView { amboss: b, ..config }),
            (OptionId::ExpiringHtlcs, SettingView::Integer(n)) => if 0 <= n <= u32::MAX {
                Ok(ConfigView { expiring_htlcs: n as u32, ..config })
            } else {
                Err(ErrorKind::OutOfRange)
            },
            (OptionId::WatchChannels, SettingView::Boolean(b)) => Ok(
                ConfigView { watch_channels: b, ..config },
            ),
            (OptionId::WatchGossip, SettingView::Boolean(b)) => Ok(
                ConfigView { watch_gossip: b, ..config },
            ),
            (OptionId::TelegramToken, SettingView::Text(text)) => Ok(
                ConfigView { telegram_token: text, ..config },
            ),
            (OptionId::TelegramUsernames, SettingView::Text(text)) => Ok(
                ConfigView {
                    telegram_usernames: config.telegram_usernames + listed_names(text),
                    ..config
                },
            ),
            (OptionId::SmtpUsername, SettingView::Text(text)) => Ok(
                ConfigView { smtp_username: text, ..config },
            ),
            (OptionId::SmtpPassword, SettingView::Text(text)) => Ok(
                ConfigView { smtp_password: text, ..config },
            ),
            (OptionId::SmtpServer, SettingView::Text(text)) => Ok(
                ConfigView { smtp_server: text, ..config },
            ),
            (OptionId::SmtpPort, SettingView::Integer(n)) => if 0 <= n <= u16::MAX {
                Ok(ConfigView { smtp_port: n as u16, ..config })
            } else {
                Err(ErrorKind::OutOfRange)
            },
            (OptionId::EmailFrom, SettingView::Text(text)) => Ok(
                ConfigView { email_from: text, ..config },
            ),
            (OptionId::EmailTo, SettingView::Text(text)) => Ok(
                ConfigView { email_to: text, ..config },
            ),
            _ => Err(ErrorKind::WrongKind),
        },
    }
}

/// Splits a comma-separated list of user names.
pub fn list_names(text: &str) -> (names: Vec<String>)
    ensures
        views_of(names@) == listed_names(text@),
{
    let parts = split_chars(&chars_of(text), ',');
    let mut names: Vec<String> = Vec::new();
    let ghost wanted = listed_names(text@);
    let mut i: usize = 0;
    while i < parts.len()
        invariant
            i <= parts.len(),
            part_views(parts@) == split_on(text@, ','),
            wanted == listed_names(text@),
            views_of(names@) == wanted.take(i as int),
        decreases parts.len() - i,
    {
        let name = trim_chars(&parts[i]);
        push_text(&mut names, name);
        i += 1;
    }
    names
}

/// Stores the value `value` of the option `name` in the configuration. A
/// refused value leaves the configuration as it was.
pub fn check_option(config: &mut Config, name: &str, value: &OptionValue) -> (r: Result<
    (),
    ConfigError,
>)
    ensures
        match r {
            Ok(_) => applied(old(config)@, name@, value@) == Ok::<ConfigView, ErrorKind>(
                final(config)@,
            ),
            Err(error) => applied(old(config)@, name@, value@) == Err::<ConfigView, ErrorKind>(
                error.kind,
            ) && error.message@ == error_text(error.kind, name@) && final(config)@ == old(
                config,
            )@,
        },
{
    let id = match find_option(name) {
        Some(id) => id,
        None => {
            return Err(config_error(ErrorKind::UnknownOption, name));
        },
    };
    match (id, value) {
        (OptionId::Amboss, OptionValue::Boolean(b)) => {
            config.amboss = *b;
        },
        (OptionId::ExpiringHtlcs, OptionValue::Integer(n)) => {
            if 0 <= *n && *n <= 0xffff_ffff {
                config.expiring_htlcs = *n as u32;
            } else {
                return Err(config_error(ErrorKind::OutOfRange, name));
            }
        },
        (OptionId::WatchChannels, OptionValue::Boolean(b)) => {
            config.watch_channels = *b;
        },
        (OptionId::WatchGossip, OptionValue::Boolean(b)) => {
            config.watch_gossip = *b;
        },
        (OptionId::TelegramToken, OptionValue::String(text)) => {
            config.telegram_token = text.clone();
        },
        (OptionId::TelegramUsernames, OptionValue::String(text)) => {
            let mut names = list_names(text.as_str());
            let ghost before = views_of(config.telegram_usernames@);
            let ghost added = views_of(names@);
            config.telegram_usernames.append(&mut names);
            assert(views_of(config.telegram_usernames@) =~= before + added);
        },
        (OptionId::SmtpUsername, OptionValue::String(text)) => {
            config.smtp_username = text.clone();
        },
        (OptionId::SmtpPassword, OptionValue::String(text)) => {
            config.smtp_password = text.clone();
        },
        (OptionId::SmtpServer, OptionValue::String(text)) => {
            config.smtp_server = text.clone();
        },
        (OptionId::SmtpPort, OptionValue::Integer(n)) => {
            if 0 <= *n && *n <= 0xffff {
                config.smtp_port = *n as u16;
            } else {
                return Err(config_error(ErrorKind::OutOfRange, name));
            }
        },
        (OptionId::EmailFrom, OptionValue::String(text)) => {
            config.email_from = text.clone();
        },
        (OptionId::EmailTo, OptionValue::String(text)) => {
            config.email_to = text.clone();
        },
        _ => {
            return Err(config_error(ErrorKind::WrongKind, name));
        },
    }
    Ok(())
}

/// The configuration after the mail sink was switched on where all its
/// credentials are there; it is never switched off.
pub open spec fn mail_activated(config: ConfigView) -> ConfigView {
    ConfigView { send_mail: config.send_mail || config.mail_is_configured(), ..config }
}

/// The configuration after the chat sink was switched on where a token and
/// a recipient are there; it is never switched off.
pub open spec fn telegram_activated(config: ConfigView) -> ConfigView {
    ConfigView { send_telegram: config.send_telegram || config.telegram_is_configured(), ..config }
}

/// Switches the mail sink on if it is fully configured.
pub fn activate_mail(config: &mut Config)
    ensures
        final(config)@ == mail_activated(old(config)@),
{
    if !config.smtp_username.as_str().is_empty() && !config.smtp_password.as_str().is_empty()
        && !config.smtp_server.as_str().is_empty() && config.smtp_port > 0
        && !config.email_from.as_str().is_empty() && !config.email_to.as_str().is_empty() {
        config.send_mail = true;
    }
}

/// Switches the chat sink on if it is fully configured.
pub fn activate_telegram(config: &mut Config)
    ensures
        final(config)@ == telegram_activated(old(config)@),
{
    if !config.telegram_token.as_str().is_empty() && !config.telegram_usernames.is_empty() {
        config.send_telegram = true;
    }
}

/// An option with the value it was given.
#[derive(Clone, Debug)]
pub struct Setting {
    pub name: String,
    pub value: OptionValue,
}

/// Why the configuration could not be set up at startup.
#[derive(Clone, Debug)]
pub enum StartupError {
    /// The node's version could not be read.
    Version(VersionError),
    /// The setting at position `index` was refused.
    Setting { index: usize, error: ConfigError },
}

/// The names of all options, in the order in which they are read at
/// startup.
pub fn startup_option_names() -> (names: Vec<&'static str>)
    ensures
        names@ == seq![
            OPT_AMBOSS,
            OPT_EXPIRING_HTLCS,
            OPT_WATCH_CHANNELS,
            OPT_WATCH_GOSSIP,
            OPT_TELEGRAM_TOKEN,
            OPT_TELEGRAM_USERNAMES,
            OPT_SMTP_USERNAME,
            OPT_SMTP_PASSWORD,
            OPT_SMTP_SERVER,
            OPT_SMTP_PORT,
            OPT_EMAIL_FROM,
            OPT_EMAIL_TO,
        ],
{
    let mut names: Vec<&'static str> = Vec::new();
    names.push(OPT_AMBOSS);
    names.push(OPT_EXPIRING_HTLCS);
    names.push(OPT_WATCH_CHANNELS);
    names.push(OPT_WATCH_GOSSIP);
    names.push(OPT_TELEGRAM_TOKEN);
    names.push(OPT_TELEGRAM_USERNAMES);
    names.push(OPT_SMTP_USERNAME);
    names.push(OPT_SMTP_PASSWORD);
    names.push(OPT_SMTP_SERVER);
    names.push(OPT_SMTP_PORT);
    names.push(OPT_EMAIL_FROM);
    names.push(OPT_EMAIL_TO);
    names
}

/// How far a run of settings gets.
pub struct Progress {
    /// The configuration after the settings that were accepted.
    pub reached: ConfigView,
    /// Position and reason of the first refusal, after which nothing more is
    /// stored.
    pub refused: Option<(int, ErrorKind)>,
}

/// Stores the settings one after the other, up to the first refusal.
pub open spec fn applied_all(config: ConfigView, settings: Seq<Setting>) -> Progress
    decreases settings.len(),
{
    if settings.len() == 0 {
        Progress { reached: config, refused: None }
    } else {
        let before = applied_all(config, settings.drop_last());
        match before.refused {
            Some(_) => before,
            None => match applied(before.reached, settings.last().name@, settings.last().value@) {
                Ok(next) => Progress { reached: next, refused: None },
                Err(kind) => Progress {
                    reached: before.reached,
                    refused: Some((settings.len() - 1, kind)),
                },
            },
        }
    }
}

/// Sets the configuration up at startup: notes whether the node's version
/// is recent, stores the settings in their order and then switches on the
/// sinks that are fully configured.
///
/// A version that cannot be read leaves the configuration untouched. A
/// refused setting ends the run: the settings before it stay stored, the
/// sinks are not looked at.
pub fn get_startup_options(config: &mut Config, version: &str, settings: &Vec<Setting>) -> (r:
    Result<(), StartupError>)
    ensures
        ({
            let before = old(config)@;
            let after = final(config)@;
            match at_or_above(version@, MIN_VERSION@) {
                Err(reason) => r matches Err(StartupError::Version(e)) && e == reason && after
                    == before,
                Ok(recent) => {
                    let progress = applied_all(
                        ConfigView { is_at_or_above_24_11: recent, ..before },
                        settings@,
                    );
                    match progress.refused {
                        None => r is Ok && after == telegram_activated(
                            mail_activated(progress.reached),
                        ),
                        Some((at, kind)) => r matches Err(StartupError::Setting { index, error })
                            && index == at && error.kind == kind && error.message@
                            == error_text(kind, settings@[at].name@) && after
                            == progress.reached,
                    }
                },
            }
        }),
{
    let recent = match at_or_above_version(version, MIN_VERSION) {
        Ok(recent) => recent,
        Err(reason) => {
            return Err(StartupError::Version(reason));
        },
    };
    config.is_at_or_above_24_11 = recent;
    let ghost start = config@;
    let mut i: usize = 0;
    while i < settings.len()
        invariant
            i <= settings.len(),
            at_or_above(version@, MIN_VERSION@) == Ok::<bool, VersionError>(recent),
            start == (ConfigView { is_at_or_above_24_11: recent, ..old(config)@ }),
            applied_all(start, settings@.take(i as int)) == (Progress {
                reached: config@,
                refused: None,
            }),
        decreases settings.len() - i,
    {
        proof {
            assert(settings@.take(i + 1).drop_last() =~= settings@.take(i as int));
        }
        match check_option(config, settings[i].name.as_str(), &settings[i].value) {
            Ok(_) => {},
            Err(error) => {
                proof {
                    lemma_refusal_stays(start, settings@, i + 1);
                }
                return Err(StartupError::Setting { index: i, error });
            },
        }
        i += 1;
    }
    proof {
        assert(settings@.take(settings.len() as int) =~= settings@);
    }
    activate_mail(config);
    activate_telegram(config);
    Ok(())
}

/// Once a setting was refused, the settings after it change nothing.
proof fn lemma_refusal_stays(config: ConfigView, settings: Seq<Setting>, upto: int)
    requires
        0 <= upto <= settings.len(),
        applied_all(config, settings.take(upto)).refused is Some,
    ensures
        applied_all(config, settings) == applied_all(config, settings.take(upto)),
    decreases settings.len() - upto,
{
    if upto == settings.len() {
        assert(settings.take(upto) =~= settings);
    } else {
        assert(settings.take(upto + 1).drop_last() =~= settings.take(upto));
        lemma_refusal_stays(config, settings, upto + 1);
    }
}

/// What a request to change an option asks for: the option named by the
/// member `config` gets the value of the member `val`.
pub open spec fn requested(args: JsonModel) -> Result<(Seq<char>, SettingView), ErrorKind> {
    match member(args, "config"@) {
        None => Err(ErrorKind::NoOptionName),
        Some(JsonModel::Text(name)) => match member(args, "val"@) {
            None => Err(ErrorKind::NoValue),
            Some(value) => match parsed_option(name, value) {
                Ok(setting) => Ok((name, setting)),
                Err(kind) => Err(kind),
            },
        },
        Some(_) => Err(ErrorKind::OptionNameNotString),
    }
}

/// The name that the message of a refused request speaks of: the option's
/// name once it is known.
pub open spec fn requested_name(args: JsonModel) -> Seq<char> {
    match member(args, "config"@) {
        Some(JsonModel::Text(name)) => name,
        _ => Seq::empty(),
    }
}

/// Takes a request to change an option while the plugin runs: reads name
/// and value from `args` and stores the value in the configuration. Gives
/// back what was stored, or the refusal, which leaves the configuration as
/// it was.
pub fn setconfig_callback(config: &mut Config, args: &serde_json::Value) -> (r: Result<
    Setting,
    ConfigError,
>)
    ensures
        match r {
            Ok(setting) => requested(json_model(*args)) == Ok::<(Seq<char>, SettingView), ErrorKind>(
                (setting.name@, setting.value@),
            ) && applied(old(config)@, setting.name@, setting.value@) == Ok::<
                ConfigView,
                ErrorKind,
            >(final(config)@),
            Err(error) => final(config)@ == old(config)@ && error.message@ == error_text(
                error.kind,
                requested_name(json_model(*args)),
            ) && match requested(json_model(*args)) {
                Ok((name, setting)) => applied(old(config)@, name, setting) == Err::<
                    ConfigView,
                    ErrorKind,
                >(error.kind),
                Err(kind) => error.kind == kind,
            },
        },
{
    let name = match json_get(args, "config") {
        Some(found) => match json_as_str(found) {
            Some(name) => name,
            None => {
                return Err(config_error(ErrorKind::OptionNameNotString, ""));
            },
        },
        None => {
            return Err(config_error(ErrorKind::NoOptionName, ""));
        },
    };
    let value = match json_get(args, "val") {
        Some(value) => value,
        None => {
            return Err(config_error(ErrorKind::NoValue, name));
        },
    };
    let setting = match parse_option(name, value) {
        Ok(setting) => setting,
        Err(error) => {
            return Err(error);
        },
    };
    match check_option(config, name, &setting) {
        Ok(_) => Ok(Setting { name: String::from_str(name), value: setting }),
        Err(error) => Err(error),
    }
}

} // verus!
