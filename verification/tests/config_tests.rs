use vitality::config::{
    activate_mail, activate_telegram, check_option, config_error, find_option,
    get_startup_options, list_names, parse_option, setconfig_callback, startup_option_names,
    ErrorKind, OptionId, OptionValue, Setting, StartupError, OPT_AMBOSS, OPT_EMAIL_FROM,
    OPT_EMAIL_TO, OPT_EXPIRING_HTLCS, OPT_SMTP_PASSWORD, OPT_SMTP_PORT, OPT_SMTP_SERVER,
    OPT_SMTP_USERNAME, OPT_TELEGRAM_TOKEN, OPT_TELEGRAM_USERNAMES, OPT_WATCH_CHANNELS,
    OPT_WATCH_GOSSIP,
};
use vitality::structs::{Config, PLUGIN_NAME};
use vitality::util::VersionError;

fn text(s: &str) -> serde_json::Value {
    serde_json::Value::String(s.to_string())
}

fn number(n: i64) -> serde_json::Value {
    serde_json::Value::Number(serde_json::Number::from(n))
}

fn request(name: serde_json::Value, value: Option<serde_json::Value>) -> serde_json::Value {
    let mut args = serde_json::Map::new();
    args.insert("config".to_string(), name);
    if let Some(value) = value {
        args.insert("val".to_string(), value);
    }
    serde_json::Value::Object(args)
}

fn setting(name: &str, value: OptionValue) -> Setting {
    Setting { name: name.to_string(), value }
}

#[test]
fn fresh_configuration() {
    let config = Config::new();
    assert!(!config.amboss);
    assert_eq!(config.expiring_htlcs, 0);
    assert!(config.watch_channels);
    assert!(!config.watch_gossip);
    assert_eq!(config.telegram_token, "");
    assert!(config.telegram_usernames.is_empty());
    assert_eq!(config.smtp_username, "");
    assert_eq!(config.smtp_password, "");
    assert_eq!(config.smtp_server, "");
    assert_eq!(config.smtp_port, 0);
    assert_eq!(config.email_from, "");
    assert_eq!(config.email_to, "");
    assert!(!config.send_mail);
    assert!(!config.send_telegram);
    assert!(!config.is_at_or_above_24_11);
    assert_eq!(PLUGIN_NAME, "vitality");
}

#[test]
fn option_names() {
    assert_eq!(find_option("vitality-amboss"), Some(OptionId::Amboss));
    assert_eq!(find_option("vitality-smtp-port"), Some(OptionId::SmtpPort));
    assert_eq!(find_option("vitality-email-to"), Some(OptionId::EmailTo));
    assert_eq!(find_option("vitality"), None);
    assert_eq!(find_option(""), None);
    assert_eq!(
        startup_option_names(),
        vec![
            "vitality-amboss",
            "vitality-expiring-htlcs",
            "vitality-watch-channels",
            "vitality-watch-gossip",
            "vitality-telegram-token",
            "vitality-telegram-usernames",
            "vitality-smtp-username",
            "vitality-smtp-password",
            "vitality-smtp-server",
            "vitality-smtp-port",
            "vitality-email-from",
            "vitality-email-to",
        ]
    );
    for name in startup_option_names() {
        assert!(find_option(name).is_some());
    }
}

#[test]
fn number_options_take_integers_and_texts_that_are_integers() {
    assert_eq!(parse_option(OPT_EXPIRING_HTLCS, &number(144)).unwrap(), OptionValue::Integer(144));
    assert_eq!(parse_option(OPT_SMTP_PORT, &text("587")).unwrap(), OptionValue::Integer(587));
    assert_eq!(parse_option(OPT_SMTP_PORT, &text("-5")).unwrap(), OptionValue::Integer(-5));
    assert_eq!(parse_option(OPT_SMTP_PORT, &text("+5")).unwrap(), OptionValue::Integer(5));
    assert_eq!(
        parse_option(OPT_SMTP_PORT, &text("9223372036854775807")).unwrap(),
        OptionValue::Integer(i64::MAX)
    );
    assert_eq!(
        parse_option(OPT_SMTP_PORT, &text("-9223372036854775808")).unwrap(),
        OptionValue::Integer(i64::MIN)
    );
    for bad in [text("9223372036854775808"), text("-9223372036854775809"), text(""), text("-"),
        text("+"), text("1 "), text("1.0"), text("0x10"), serde_json::Value::Bool(true),
        serde_json::Value::Null]
    {
        let error = parse_option(OPT_EXPIRING_HTLCS, &bad).unwrap_err();
        assert_eq!(error.kind, ErrorKind::NotAnInteger);
        assert_eq!(error.message, "vitality-expiring-htlcs is not a valid integer!");
    }
    let float = serde_json::Number::from_f64(1.5).map(serde_json::Value::Number).unwrap();
    assert_eq!(parse_option(OPT_SMTP_PORT, &float).unwrap_err().kind, ErrorKind::NotAnInteger);
}

#[test]
fn integer_texts_are_read_as_std_reads_them() {
    for candidate in ["0", "-0", "+0", "007", "12345678901234567890", "--1", "+-1", "1e3", "१२"] {
        let ours = parse_option(OPT_SMTP_PORT, &text(candidate)).ok();
        let theirs = candidate.parse::<i64>().ok().map(OptionValue::Integer);
        assert_eq!(ours, theirs);
    }
}

#[test]
fn switches_take_booleans_and_the_two_words() {
    for name in [OPT_AMBOSS, OPT_WATCH_CHANNELS, OPT_WATCH_GOSSIP] {
        assert_eq!(
            parse_option(name, &serde_json::Value::Bool(true)).unwrap(),
            OptionValue::Boolean(true)
        );
        assert_eq!(parse_option(name, &text("false")).unwrap(), OptionValue::Boolean(false));
        assert_eq!(parse_option(name, &text("true")).unwrap(), OptionValue::Boolean(true));
        for bad in [text("True"), text("1"), text(""), number(1), serde_json::Value::Null] {
            let error = parse_option(name, &bad).unwrap_err();
            assert_eq!(error.kind, ErrorKind::NotABoolean);
            assert_eq!(error.message, format!("{} is not a valid boolean!", name));
        }
    }
}

#[test]
fn other_options_take_texts() {
    assert_eq!(
        parse_option(OPT_EMAIL_TO, &text("me@example.org")).unwrap(),
        OptionValue::String("me@example.org".to_string())
    );
    assert_eq!(
        parse_option("anything", &text("x")).unwrap(),
        OptionValue::String("x".to_string())
    );
    let error = parse_option(OPT_EMAIL_TO, &number(5)).unwrap_err();
    assert_eq!(error.kind, ErrorKind::NotAString);
    assert_eq!(error.message, "vitality-email-to is not a valid string!");
}

#[test]
fn values_are_stored_in_their_fields() {
    let mut config = Config::new();
    check_option(&mut config, OPT_AMBOSS, &OptionValue::Boolean(true)).unwrap();
    check_option(&mut config, OPT_EXPIRING_HTLCS, &OptionValue::Integer(50)).unwrap();
    check_option(&mut config, OPT_WATCH_CHANNELS, &OptionValue::Boolean(false)).unwrap();
    check_option(&mut config, OPT_WATCH_GOSSIP, &OptionValue::Boolean(true)).unwrap();
    check_option(&mut config, OPT_TELEGRAM_TOKEN, &OptionValue::String("tok".into())).unwrap();
    check_option(&mut config, OPT_SMTP_USERNAME, &OptionValue::String("user".into())).unwrap();
    check_option(&mut config, OPT_SMTP_PASSWORD, &OptionValue::String("pw".into())).unwrap();
    check_option(&mut config, OPT_SMTP_SERVER, &OptionValue::String("host".into())).unwrap();
    check_option(&mut config, OPT_SMTP_PORT, &OptionValue::Integer(65535)).unwrap();
    check_option(&mut config, OPT_EMAIL_FROM, &OptionValue::String("a@b".into())).unwrap();
    check_option(&mut config, OPT_EMAIL_TO, &OptionValue::String("c@d".into())).unwrap();
    assert!(config.amboss);
    assert_eq!(config.expiring_htlcs, 50);
    assert!(!config.watch_channels);
    assert!(config.watch_gossip);
    assert_eq!(config.telegram_token, "tok");
    assert_eq!(config.smtp_username, "user");
    assert_eq!(config.smtp_password, "pw");
    assert_eq!(config.smtp_server, "host");
    assert_eq!(config.smtp_port, 65535);
    assert_eq!(config.email_from, "a@b");
    assert_eq!(config.email_to, "c@d");
    assert!(!config.send_mail);
    assert!(!config.send_telegram);
}

#[test]
fn user_names_are_split_trimmed_and_added() {
    assert_eq!(list_names(" @a , b,c "), vec!["@a", "b", "c"]);
    assert_eq!(list_names(""), vec![""]);
    assert_eq!(list_names("a,,b"), vec!["a", "", "b"]);
    let mut config = Config::new();
    check_option(&mut config, OPT_TELEGRAM_USERNAMES, &OptionValue::String("x, y".into()))
        .unwrap();
    check_option(&mut config, OPT_TELEGRAM_USERNAMES, &OptionValue::String("z".into())).unwrap();
    assert_eq!(config.telegram_usernames, vec!["x", "y", "z"]);
}

#[test]
fn refused_values_leave_the_configuration_alone() {
    let mut config = Config::new();
    let error = check_option(&mut config, "vitality-nope", &OptionValue::Boolean(true)).unwrap_err();
    assert_eq!(error.kind, ErrorKind::UnknownOption);
    assert_eq!(error.message, "Unknown option: vitality-nope");
    for bad in [-1, 4_294_967_296] {
        let error =
            check_option(&mut config, OPT_EXPIRING_HTLCS, &OptionValue::Integer(bad)).unwrap_err();
        assert_eq!(error.kind, ErrorKind::OutOfRange);
        assert_eq!(error.message, "out of range integral type conversion attempted");
    }
    for bad in [-1, 65_536] {
        let error = check_option(&mut config, OPT_SMTP_PORT, &OptionValue::Integer(bad)).unwrap_err();
        assert_eq!(error.kind, ErrorKind::OutOfRange);
    }
    check_option(&mut config, OPT_EXPIRING_HTLCS, &OptionValue::Integer(4_294_967_295)).unwrap();
    assert_eq!(config.expiring_htlcs, u32::MAX);
    let error = check_option(&mut config, OPT_AMBOSS, &OptionValue::Integer(1)).unwrap_err();
    assert_eq!(error.kind, ErrorKind::WrongKind);
    assert_eq!(error.message, "Wrong kind of value for option: vitality-amboss");
    let error =
        check_option(&mut config, OPT_SMTP_PORT, &OptionValue::String("25".into())).unwrap_err();
    assert_eq!(error.kind, ErrorKind::WrongKind);
    assert!(!config.amboss);
    assert_eq!(config.smtp_port, 0);
}

#[test]
fn error_messages() {
    assert_eq!(
        config_error(ErrorKind::NoOptionName, "").message,
        "Bad CLN object. No option name found!"
    );
    assert_eq!(
        config_error(ErrorKind::OptionNameNotString, "").message,
        "Bad CLN object. Option name not a string!"
    );
    assert_eq!(
        config_error(ErrorKind::NoValue, "opt").message,
        "Bad CLN object. No value found for option: opt"
    );
}

#[test]
fn sinks_are_switched_on_when_fully_configured() {
    let mut config = Config::new();
    config.smtp_username = "u".into();
    config.smtp_password = "p".into();
    config.smtp_server = "s".into();
    config.email_from = "f".into();
    config.email_to = "t".into();
    activate_mail(&mut config);
    assert!(!config.send_mail);
    config.smtp_port = 25;
    activate_mail(&mut config);
    assert!(config.send_mail);
    config.smtp_password = String::new();
    activate_mail(&mut config);
    assert!(config.send_mail);

    config.telegram_token = "t".into();
    activate_telegram(&mut config);
    assert!(!config.send_telegram);
    config.telegram_usernames = vec!["me".to_string()];
    activate_telegram(&mut config);
    assert!(config.send_telegram);
    config.telegram_token = String::new();
    activate_telegram(&mut config);
    assert!(config.send_telegram);
}

#[test]
fn startup_stores_all_settings_and_activates_the_sinks() {
    let mut config = Config::new();
    let settings = vec![
        setting(OPT_EXPIRING_HTLCS, OptionValue::Integer(20)),
        setting(OPT_TELEGRAM_TOKEN, OptionValue::String("tok".into())),
        setting(OPT_TELEGRAM_USERNAMES, OptionValue::String("a, b".into())),
        setting(OPT_SMTP_USERNAME, OptionValue::String("u".into())),
    ];
    assert!(get_startup_options(&mut config, "v24.11.1", &settings).is_ok());
    assert!(config.is_at_or_above_24_11);
    assert_eq!(config.expiring_htlcs, 20);
    assert_eq!(config.telegram_usernames, vec!["a", "b"]);
    assert!(config.send_telegram);
    assert!(!config.send_mail);
    let mut old = Config::new();
    assert!(get_startup_options(&mut old, "v23.08", &Vec::new()).is_ok());
    assert!(!old.is_at_or_above_24_11);
}

#[test]
fn startup_stops_at_the_first_refusal() {
    let mut config = Config::new();
    let settings = vec![
        setting(OPT_AMBOSS, OptionValue::Boolean(true)),
        setting(OPT_SMTP_PORT, OptionValue::Integer(70_000)),
        setting(OPT_EXPIRING_HTLCS, OptionValue::Integer(20)),
    ];
    match get_startup_options(&mut config, "24.11", &settings) {
        Err(StartupError::Setting { index, error }) => {
            assert_eq!(index, 1);
            assert_eq!(error.kind, ErrorKind::OutOfRange);
        }
        _ => panic!("the port had to be refused"),
    }
    assert!(config.amboss);
    assert_eq!(config.expiring_htlcs, 0);
    let mut config = Config::new();
    match get_startup_options(&mut config, "unknown", &settings) {
        Err(StartupError::Version(reason)) => assert_eq!(reason, VersionError::Malformed),
        _ => panic!("the version had to be refused"),
    }
    assert!(!config.amboss);
}

#[test]
fn change_requests_are_read_checked_and_stored() {
    let mut config = Config::new();
    let stored =
        setconfig_callback(&mut config, &request(text(OPT_EXPIRING_HTLCS), Some(text("12"))))
            .unwrap();
    assert_eq!(stored.name, OPT_EXPIRING_HTLCS);
    assert_eq!(stored.value, OptionValue::Integer(12));
    assert_eq!(config.expiring_htlcs, 12);
    let stored = setconfig_callback(
        &mut config,
        &request(text(OPT_WATCH_GOSSIP), Some(serde_json::Value::Bool(true))),
    )
    .unwrap();
    assert_eq!(stored.value, OptionValue::Boolean(true));
    assert!(config.watch_gossip);
}

#[test]
fn bad_change_requests_are_refused() {
    let mut config = Config::new();
    let error = setconfig_callback(&mut config, &serde_json::Value::Null).unwrap_err();
    assert_eq!(error.kind, ErrorKind::NoOptionName);
    assert_eq!(error.message, "Bad CLN object. No option name found!");
    let error = setconfig_callback(&mut config, &request(number(1), Some(number(1)))).unwrap_err();
    assert_eq!(error.kind, ErrorKind::OptionNameNotString);
    assert_eq!(error.message, "Bad CLN object. Option name not a string!");
    let error = setconfig_callback(&mut config, &request(text(OPT_AMBOSS), None)).unwrap_err();
    assert_eq!(error.kind, ErrorKind::NoValue);
    assert_eq!(error.message, "Bad CLN object. No value found for option: vitality-amboss");
    let error =
        setconfig_callback(&mut config, &request(text(OPT_AMBOSS), Some(text("yes")))).unwrap_err();
    assert_eq!(error.kind, ErrorKind::NotABoolean);
    assert_eq!(error.message, "vitality-amboss is not a valid boolean!");
    let error =
        setconfig_callback(&mut config, &request(text(OPT_SMTP_PORT), Some(number(-1)))).unwrap_err();
    assert_eq!(error.kind, ErrorKind::OutOfRange);
    let error =
        setconfig_callback(&mut config, &request(text("other"), Some(text("x")))).unwrap_err();
    assert_eq!(error.kind, ErrorKind::UnknownOption);
    assert_eq!(error.message, "Unknown option: other");
    assert!(!config.amboss);
    assert_eq!(config.smtp_port, 0);
}
