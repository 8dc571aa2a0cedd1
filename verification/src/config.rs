//! The settings of the gateway, their defaults, and the rules of the proxy.

use crate::text::{chars_of, string_of, trim_bounds, trimmed};
use vstd::prelude::*;

verus! {

/// Settings of the Telegram platform.
#[derive(Debug, Clone)]
pub struct Telegram {
    pub enabled: bool,
    pub bot_token: String,
    pub bot_username: String,
}

impl Telegram {
    /// Every field has its default: switches off, texts empty, numbers zero.
    pub open spec fn is_default(self) -> bool {
        &&& !self.enabled
        &&& self.bot_token@ == Seq::<char>::empty()
        &&& self.bot_username@ == Seq::<char>::empty()
    }
}

impl Default for Telegram {
    fn default() -> (r: Self)
        ensures
            r.is_default(),
    {
        Self {
            enabled: false,
            bot_token: String::new(),
            bot_username: String::new(),
        }
    }
}

/// Settings of the Discord platform.
#[derive(Debug, Clone)]
pub struct Discord {
    pub enabled: bool,
    pub token: String,
}

impl Discord {
    /// Every field has its default: switches off, texts empty, numbers zero.
    pub open spec fn is_default(self) -> bool {
        &&& !self.enabled
        &&& self.token@ == Seq::<char>::empty()
    }
}

impl Default for Discord {
    fn default() -> (r: Self)
        ensures
            r.is_default(),
    {
        Self {
            enabled: false,
            token: String::new(),
        }
    }
}

/// Settings of the OneBot platform.
#[derive(Debug, Clone)]
pub struct Onebot {
    pub enabled: bool,
    pub ws_url: String,
    pub access_token: String,
}

impl Onebot {
    /// Every field has its default: switches off, texts empty, numbers zero.
    pub open spec fn is_default(self) -> bool {
        &&& !self.enabled
        &&& self.ws_url@ == Seq::<char>::empty()
        &&& self.access_token@ == Seq::<char>::empty()
    }
}

impl Default for Onebot {
    fn default() -> (r: Self)
        ensures
            r.is_default(),
    {
        Self {
            enabled: false,
            ws_url: String::new(),
            access_token: String::new(),
        }
    }
}

/// Which optional commands are switched on.
#[derive(Debug, Clone)]
pub struct SwitchConfig {
    pub weather: bool,
    pub translate: bool,
}

impl SwitchConfig {
    /// Every field has its default: switches off, texts empty, numbers zero.
    pub open spec fn is_default(self) -> bool {
        &&& !self.weather
        &&& !self.translate
    }
}

impl Default for SwitchConfig {
    fn default() -> (r: Self)
        ensures
            r.is_default(),
    {
        Self {
            weather: false,
            translate: false,
        }
    }
}

/// Settings of the GitHub command.
#[derive(Debug, Clone)]
pub struct GitHubConfig {
    pub enabled: bool,
    pub token: String,
}

impl GitHubConfig {
    /// Every field has its default: switches off, texts empty, numbers zero.
    pub open spec fn is_default(self) -> bool {
        &&& !self.enabled
        &&& self.token@ == Seq::<char>::empty()
    }
}

impl Default for GitHubConfig {
    fn default() -> (r: Self)
        ensures
            r.is_default(),
    {
        Self {
            enabled: false,
            token: String::new(),
        }
    }
}

/// Settings of the Spotify music source.
#[derive(Debug, Clone)]
pub struct SpotifyConfig {
    pub enabled: bool,
    pub client_id: String,
    pub client_secret: String,
}

impl SpotifyConfig {
    /// Every field has its default: switches off, texts empty, numbers zero.
    pub open spec fn is_default(self) -> bool {
        &&& !self.enabled
        &&& self.client_id@ == Seq::<char>::empty()
        &&& self.client_secret@ == Seq::<char>::empty()
    }
}

impl Default for SpotifyConfig {
    fn default() -> (r: Self)
        ensures
            r.is_default(),
    {
        Self {
            enabled: false,
            client_id: String::new(),
            client_secret: String::new(),
        }
    }
}

/// Settings of the SoundCloud music source.
#[derive(Debug, Clone)]
pub struct SoundcloudConfig {
    pub enabled: bool,
    pub client_id: String,
}

impl SoundcloudConfig {
    /// Every field has its default: switches off, texts empty, numbers zero.
    pub open spec fn is_default(self) -> bool {
        &&& !self.enabled
        &&& self.client_id@ == Seq::<char>::empty()
    }
}

impl Default for SoundcloudConfig {
    fn default() -> (r: Self)
        ensures
            r.is_default(),
    {
        Self {
            enabled: false,
            client_id: String::new(),
        }
    }
}

/// Settings of the music sources.
#[derive(Debug, Clone)]
pub struct MusicConfig {
    pub spotify: SpotifyConfig,
    pub soundcloud: SoundcloudConfig,
}

impl MusicConfig {
    /// Every field has its default: switches off, texts empty, numbers zero.
    pub open spec fn is_default(self) -> bool {
        &&& self.spotify.is_default()
        &&& self.soundcloud.is_default()
    }
}

impl Default for MusicConfig {
    fn default() -> (r: Self)
        ensures
            r.is_default(),
    {
        Self {
            spotify: SpotifyConfig::default(),
            soundcloud: SoundcloudConfig::default(),
        }
    }
}

/// Settings of the translate command.
#[derive(Debug, Clone)]
pub struct TranslateConfig {
    pub default_lang: String,
}

impl TranslateConfig {
    /// Every field has its default: switches off, texts empty, numbers zero.
    pub open spec fn is_default(self) -> bool {
        &&& self.default_lang@ == Seq::<char>::empty()
    }
}

impl Default for TranslateConfig {
    fn default() -> (r: Self)
        ensures
            r.is_default(),
    {
        Self {
            default_lang: String::new(),
        }
    }
}

/// Settings of the twenty-four game.
#[derive(Debug, Clone)]
pub struct TwentyFourConfig {
    pub time_limit: u64,
}

impl TwentyFourConfig {
    /// Every field has its default: switches off, texts empty, numbers zero.
    pub open spec fn is_default(self) -> bool {
        &&& self.time_limit == 0
    }
}

impl Default for TwentyFourConfig {
    fn default() -> (r: Self)
        ensures
            r.is_default(),
    {
        Self {
            time_limit: 0,
        }
    }
}

/// Which commands may be controlled at run time.
#[derive(Debug, Clone)]
pub struct ControlConfig {
    pub weather: bool,
    pub translate: bool,
}

impl ControlConfig {
    /// Every field has its default: switches off, texts empty, numbers zero.
    pub open spec fn is_default(self) -> bool {
        &&& !self.weather
        &&& !self.translate
    }
}

impl Default for ControlConfig {
    fn default() -> (r: Self)
        ensures
            r.is_default(),
    {
        Self {
            weather: false,
            translate: false,
        }
    }
}

/// Settings of all commands.
#[derive(Debug, Clone)]
pub struct CommandsConfig {
    pub switch: SwitchConfig,
    pub github: GitHubConfig,
    pub music: MusicConfig,
    pub translate: TranslateConfig,
    pub twenty_four: TwentyFourConfig,
    pub control: ControlConfig,
}

impl CommandsConfig {
    /// Every field has its default: switches off, texts empty, numbers zero.
    pub open spec fn is_default(self) -> bool {
        &&& self.switch.is_default()
        &&& self.github.is_default()
        &&& self.music.is_default()
        &&& self.translate.is_default()
        &&& self.twenty_four.is_default()
        &&& self.control.is_default()
    }
}

impl Default for CommandsConfig {
    fn default() -> (r: Self)
        ensures
            r.is_default(),
    {
        Self {
            switch: SwitchConfig::default(),
            github: GitHubConfig::default(),
            music: MusicConfig::default(),
            translate: TranslateConfig::default(),
            twenty_four: TwentyFourConfig::default(),
            control: ControlConfig::default(),
        }
    }
}

/// The kind of proxy to go through.
#[derive(Debug, Clone, Copy, PartialEq, Eq, Structural)]
pub enum ProxyType {
    NoProxy,
    Https,
    Socks5,
}

/// Settings of the outbound proxy.
#[derive(Debug, Clone)]
pub struct ProxyConfig {
    pub enabled: bool,
    pub proxy_type: ProxyType,
    pub host: String,
    pub port: u16,
    pub username: String,
    pub password: String,
    pub non_proxy_hosts_list: Vec<String>,
}

impl ProxyConfig {
    /// No proxy: switched off, no type, no endpoint, no credentials, no
    /// bypass list.
    pub open spec fn is_default(self) -> bool {
        &&& !self.enabled
        &&& self.proxy_type == ProxyType::NoProxy
        &&& self.host@ == Seq::<char>::empty()
        &&& self.port == 0
        &&& self.username@ == Seq::<char>::empty()
        &&& self.password@ == Seq::<char>::empty()
        &&& self.non_proxy_hosts_list@ == Seq::<String>::empty()
    }

    /// The endpoint can be used: a host that is not blank, a port, and a
    /// proxy type.
    pub open spec fn spec_valid_endpoint(self) -> bool {
        trimmed(self.host@).len() > 0 && self.port > 0 && self.proxy_type != ProxyType::NoProxy
    }

    /// Whether requests go through the proxy at all: it is switched on and
    /// its endpoint can be used.
    pub open spec fn spec_in_use(self) -> bool {
        self.enabled && self.spec_valid_endpoint()
    }

    /// Whether the endpoint can be used.
    pub fn valid_endpoint(&self) -> (b: bool)
        ensures
            b == self.spec_valid_endpoint(),
    {
        let host = chars_of(self.host.as_str());
        let (from, to) = trim_bounds(host.as_slice());
        from < to && self.port > 0 && !matches!(self.proxy_type, ProxyType::NoProxy)
    }

    /// Whether requests go through the proxy at all.
    pub fn in_use(&self) -> (b: bool)
        ensures
            b == self.spec_in_use(),
    {
        self.enabled && self.valid_endpoint()
    }
}

impl Default for ProxyConfig {
    fn default() -> (r: Self)
        ensures
            r.is_default(),
    {
        Self {
            enabled: false,
            proxy_type: ProxyType::NoProxy,
            host: String::new(),
            port: 0,
            username: String::new(),
            password: String::new(),
            non_proxy_hosts_list: Vec::new(),
        }
    }
}

/// All settings of the gateway.
#[derive(Debug, Clone)]
pub struct AppProperties {
    pub prefix: String,
    pub language: String,
    pub telegram: Telegram,
    pub discord: Discord,
    pub onebot: Onebot,
    pub commands: CommandsConfig,
    pub proxy: ProxyConfig,
}

impl AppProperties {
    /// The prefix is `/`, the language `zh-cn`, and all the rest has its
    /// default.
    pub open spec fn is_default(self) -> bool {
        &&& self.prefix@ == seq!['/']
        &&& self.language@ == seq!['z', 'h', '-', 'c', 'n']
        &&& self.telegram.is_default()
        &&& self.discord.is_default()
        &&& self.onebot.is_default()
        &&& self.commands.is_default()
        &&& self.proxy.is_default()
    }
}

impl Default for AppProperties {
    fn default() -> (r: Self)
        ensures
            r.is_default(),
    {
        proof {
            reveal_strlit("/");
            reveal_strlit("zh-cn");
        }
        let r = Self {
            prefix: "/".to_owned(),
            language: "zh-cn".to_owned(),
            telegram: Telegram::default(),
            discord: Discord::default(),
            onebot: Onebot::default(),
            commands: CommandsConfig::default(),
            proxy: ProxyConfig::default(),
        };
        assert(r.prefix@ =~= seq!['/']);
        assert(r.language@ =~= seq!['z', 'h', '-', 'c', 'n']);
        r
    }
}

/// `s` with every carriage return that stands before a line feed taken out.
pub open spec fn unix_newlines(s: Seq<char>) -> Seq<char>
    decreases s.len(),
{
    if s.len() == 0 {
        s
    } else if s.len() >= 2 && s[0] == '\r' && s[1] == '\n' {
        seq!['\n'] + unix_newlines(s.skip(2))
    } else {
        seq![s[0]] + unix_newlines(s.drop_first())
    }
}

/// The form in which two settings files are compared: line ends as line
/// feeds, no white space at either end.
pub open spec fn normalized(s: Seq<char>) -> Seq<char> {
    trimmed(unix_newlines(s))
}

/// Brings `s` to the form in which settings files are compared.
pub fn normalize_lf(s: &str) -> (r: String)
    ensures
        r@ == normalized(s@),
{
    let v = chars_of(s);
    let n = v.len();
    let mut out: Vec<char> = Vec::new();
    let mut i: usize = 0;
    assert(v@.skip(0) =~= v@);
    while i < n
        invariant
            i <= n == v@.len(),
            out@ + unix_newlines(v@.skip(i as int)) == unix_newlines(v@),
        decreases n - i,
    {
        let ghost rest = v@.skip(i as int);
        let ghost before = out@;
        if i + 1 < n && v[i] == '\r' && v[i + 1] == '\n' {
            out.push('\n');
            assert(rest.skip(2) =~= v@.skip(i as int + 2));
            assert(out@ + unix_newlines(v@.skip(i as int + 2)) =~= before + unix_newlines(rest));
            i += 2;
        } else {
            out.push(v[i]);
            assert(rest.drop_first() =~= v@.skip(i as int + 1));
            assert(out@ + unix_newlines(v@.skip(i as int + 1)) =~= before + unix_newlines(rest));
            i += 1;
        }
    }
    assert(out@ + Seq::<char>::empty() =~= out@);
    let (from, to) = trim_bounds(out.as_slice());
    string_of(out.as_slice(), from, to)
}

/// Whether the settings file has to be written again: its text and the
/// canonical text differ in more than line ends and outer white space.
pub fn needs_rewrite(file_text: &str, canonical: &str) -> (b: bool)
    ensures
        b == (normalized(file_text@) != normalized(canonical@)),
{
    let a = normalize_lf(file_text);
    let b = normalize_lf(canonical);
    !(a == b)
}

} // verus!
