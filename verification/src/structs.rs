//! The configuration snapshot that every cycle works on.

use vstd::prelude::*;
use crate::text::views_of;

verus! {

/// Name under which the plugin registers itself and its commands.
pub const PLUGIN_NAME: &'static str = "vitality";

/// All tunables of the engine. A cycle clones the live value once and reads
/// only the clone.
#[derive(Clone, Debug)]
pub struct Config {
    pub amboss: bool,
    pub expiring_htlcs: u32,
    pub watch_channels: bool,
    pub watch_gossip: bool,
    pub telegram_token: String,
    pub telegram_usernames: Vec<String>,
    pub smtp_username: String,
    pub smtp_password: String,
    pub smtp_server: String,
    pub smtp_port: u16,
    pub email_from: String,
    pub email_to: String,
    pub send_mail: bool,
    pub send_telegram: bool,
    pub is_at_or_above_24_11: bool,
}

/// A configuration with its texts as sequences of characters.
pub struct ConfigView {
    pub amboss: bool,
    pub expiring_htlcs: u32,
    pub watch_channels: bool,
    pub watch_gossip: bool,
    pub telegram_token: Seq<char>,
    pub telegram_usernames: Seq<Seq<char>>,
    pub smtp_username: Seq<char>,
    pub smtp_password: Seq<char>,
    pub smtp_server: Seq<char>,
    pub smtp_port: u16,
    pub email_from: Seq<char>,
    pub email_to: Seq<char>,
    pub send_mail: bool,
    pub send_telegram: bool,
    pub is_at_or_above_24_11: bool,
}

impl View for Config {
    type V = ConfigView;

    open spec fn view(&self) -> ConfigView {
        ConfigView {
            amboss: self.amboss,
            expiring_htlcs: self.expiring_htlcs,
            watch_channels: self.watch_channels,
            watch_gossip: self.watch_gossip,
            telegram_token: self.telegram_token@,
            telegram_usernames: views_of(self.telegram_usernames@),
            smtp_username: self.smtp_username@,
            smtp_password: self.smtp_password@,
            smtp_server: self.smtp_server@,
            smtp_port: self.smtp_port,
            email_from: self.email_from@,
            email_to: self.email_to@,
            send_mail: self.send_mail,
            send_telegram: self.send_telegram,
            is_at_or_above_24_11: self.is_at_or_above_24_11,
        }
    }
}

impl ConfigView {
    /// The configuration a fresh process starts with: only the status-line
    /// watch is on, nothing is sent anywhere.
    pub open spec fn initial() -> ConfigView {
        ConfigView {
            amboss: false,
            expiring_htlcs: 0,
            watch_channels: true,
            watch_gossip: false,
            telegram_token: Seq::empty(),
            telegram_usernames: Seq::empty(),
            smtp_username: Seq::empty(),
            smtp_password: Seq::empty(),
            smtp_server: Seq::empty(),
            smtp_port: 0,
            email_from: Seq::empty(),
            email_to: Seq::empty(),
            send_mail: false,
            send_telegram: false,
            is_at_or_above_24_11: false,
        }
    }

    /// Every credential is set: user, password, server, a port above zero,
    /// sender and recipient.
    pub open spec fn mail_is_configured(self) -> bool {
        &&& self.smtp_username.len() > 0
        &&& self.smtp_password.len() > 0
        &&& self.smtp_server.len() > 0
        &&& self.smtp_port > 0
        &&& self.email_from.len() > 0
        &&& self.email_to.len() > 0
    }

    /// A bot token and at least one recipient are set.
    pub open spec fn telegram_is_configured(self) -> bool {
        self.telegram_token.len() > 0 && self.telegram_usernames.len() > 0
    }
}

impl Config {
    pub fn new() -> (config: Config)
        ensures
            config@ == ConfigView::initial(),
    {
        let config = Config {
            amboss: false,
            expiring_htlcs: 0,
            watch_channels: true,
            watch_gossip: false,
            telegram_token: String::new(),
            telegram_usernames: Vec::new(),
            smtp_username: String::new(),
            smtp_password: String::new(),
            smtp_server: String::new(),
            smtp_port: 0,
            email_from: String::new(),
            email_to: String::new(),
            send_mail: false,
            send_telegram: false,
            is_at_or_above_24_11: false,
        };
        assert(config@.telegram_usernames =~= Seq::<Seq<char>>::empty());
        config
    }
}

} // verus!
