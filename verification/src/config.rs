//! Node configuration.
//!
//! The plain data the engine runs under: identity of the node, LLM provider
//! selection, the security policy (allowed executors and HTTP domains), and
//! the sections the surrounding process uses.  Loading the YAML file is the
//! caller's business; [`apply_env_overrides`] holds the precedence rules that
//! let environment variables adjust the loaded values.

use vstd::prelude::*;
use vstd::string::*;

use crate::json::{JVal, Json};
use crate::text::chars_to_string;

verus! {

pub struct NodeConfig {
    pub node: Node,
    pub llm: LlmConfig,
    pub security: SecurityConfig,
    pub http: HttpConfig,
    pub executors: ExecutorsConfig,
    pub memory: MemoryConfig,
    pub artifacts: ArtifactsConfig,
    pub logging: LoggingConfig,
    pub control_plane: ControlPlaneConfig,
    pub channels: ChannelsConfig,
    pub store: StoreConfig,
    pub identity: IdentityConfig,
}

pub struct Node {
    pub id: String,
    pub name: String,
    pub environment: String,
}

pub struct LlmConfig {
    pub provider: String,
    pub api_key_env: String,
    pub model: String,
}

pub struct SecurityConfig {
    pub mode: String,
    pub allowed_executors: Vec<String>,
}

pub struct HttpConfig {
    pub allowed_domains: Vec<String>,
}

pub struct ExecutorsConfig {
    pub enabled: Vec<String>,
}

pub struct MemoryConfig {
    pub session_max_messages: usize,
    pub preferences_path: String,
}

pub struct ArtifactsConfig {
    pub storage: String,
    pub path: String,
}

pub struct LoggingConfig {
    pub level: String,
    pub path: String,
}

pub struct ControlPlaneConfig {
    pub url: Option<String>,
    pub token: Option<String>,
}

pub struct ChannelsConfig {
    pub discord: DiscordChannelConfig,
    pub slack: SlackChannelConfig,
    pub telegram: TelegramChannelConfig,
    pub http: HttpChannelConfig,
}

pub struct DiscordChannelConfig {
    pub enabled: bool,
    pub token_env: String,
    pub listen_guilds: Vec<String>,
    pub listen_channels: Vec<String>,
    pub trigger: String,
}

pub struct SlackChannelConfig {
    pub enabled: bool,
    pub token_env: String,
    pub app_token_env: String,
    pub listen_channels: Vec<String>,
}

pub struct TelegramChannelConfig {
    pub enabled: bool,
    pub token_env: String,
    pub allowed_users: Vec<String>,
}

pub struct HttpChannelConfig {
    pub enabled: bool,
    pub port: u16,
}

pub struct StoreConfig {
    pub store_type: String,
    pub sqlite_path: String,
}

pub struct IdentityConfig {
    pub auto_create: bool,
    pub link_timeout_minutes: u32,
}

pub fn default_discord_token_env() -> (r: String)
    ensures
        r@ == "DISCORD_BOT_TOKEN"@,
{
    String::from_str("DISCORD_BOT_TOKEN")
}

pub fn default_trigger() -> (r: String)
    ensures
        r@ == "mention"@,
{
    String::from_str("mention")
}

pub fn default_slack_token_env() -> (r: String)
    ensures
        r@ == "SLACK_BOT_TOKEN"@,
{
    String::from_str("SLACK_BOT_TOKEN")
}

pub fn default_slack_app_token_env() -> (r: String)
    ensures
        r@ == "SLACK_APP_TOKEN"@,
{
    String::from_str("SLACK_APP_TOKEN")
}

pub fn default_telegram_token_env() -> (r: String)
    ensures
        r@ == "TELEGRAM_BOT_TOKEN"@,
{
    String::from_str("TELEGRAM_BOT_TOKEN")
}

pub fn default_true() -> (r: bool)
    ensures
        r,
{
    true
}

pub fn default_port() -> (r: u16)
    ensures
        r == 8787u16,
{
    8787
}

pub fn default_store_type() -> (r: String)
    ensures
        r@ == "sqlite"@,
{
    String::from_str("sqlite")
}

pub fn default_sqlite_path() -> (r: String)
    ensures
        r@ == "~/.oneclaw/data.db"@,
{
    String::from_str("~/.oneclaw/data.db")
}

pub fn default_link_timeout() -> (r: u32)
    ensures
        r == 15u32,
{
    15
}

/// A wildcard entry, as several channel lists default to.
fn star_list() -> (r: Vec<String>)
    ensures
        r@.len() == 1,
        r@[0]@ == "*"@,
{
    let mut v: Vec<String> = Vec::new();
    v.push(String::from_str("*"));
    v
}

impl Default for DiscordChannelConfig {
    fn default() -> (r: Self)
        ensures
            !r.enabled,
            r.token_env@ == "DISCORD_BOT_TOKEN"@,
            r.listen_guilds@.len() == 1 && r.listen_guilds@[0]@ == "*"@,
            r.listen_channels@.len() == 1 && r.listen_channels@[0]@ == "*"@,
            r.trigger@ == "mention"@,
    {
        DiscordChannelConfig {
            enabled: false,
            token_env: default_discord_token_env(),
            listen_guilds: star_list(),
            listen_channels: star_list(),
            trigger: default_trigger(),
        }
    }
}

impl Default for SlackChannelConfig {
    fn default() -> (r: Self)
        ensures
            !r.enabled,
            r.token_env@ == "SLACK_BOT_TOKEN"@,
            r.app_token_env@ == "SLACK_APP_TOKEN"@,
            r.listen_channels@.len() == 1 && r.listen_channels@[0]@ == "*"@,
    {
        SlackChannelConfig {
            enabled: false,
            token_env: default_slack_token_env(),
            app_token_env: default_slack_app_token_env(),
            listen_channels: star_list(),
        }
    }
}

impl Default for TelegramChannelConfig {
    fn default() -> (r: Self)
        ensures
            !r.enabled,
            r.token_env@ == "TELEGRAM_BOT_TOKEN"@,
            r.allowed_users@.len() == 1 && r.allowed_users@[0]@ == "*"@,
    {
        TelegramChannelConfig {
            enabled: false,
            token_env: default_telegram_token_env(),
            allowed_users: star_list(),
        }
    }
}

impl Default for HttpChannelConfig {
    fn default() -> (r: Self)
        ensures
            r.enabled,
            r.port == 8787u16,
    {
        HttpChannelConfig { enabled: default_true(), port: default_port() }
    }
}

impl Default for ChannelsConfig {
    fn default() -> (r: Self)
        ensures
            !r.discord.enabled,
            !r.slack.enabled,
            !r.telegram.enabled,
            r.http.enabled,
    {
        ChannelsConfig {
            discord: DiscordChannelConfig::default(),
            slack: SlackChannelConfig::default(),
            telegram: TelegramChannelConfig::default(),
            http: HttpChannelConfig::default(),
        }
    }
}

impl Default for StoreConfig {
    fn default() -> (r: Self)
        ensures
            r.store_type@ == "sqlite"@,
            r.sqlite_path@ == "~/.oneclaw/data.db"@,
    {
        StoreConfig { store_type: default_store_type(), sqlite_path: default_sqlite_path() }
    }
}

impl Default for IdentityConfig {
    fn default() -> (r: Self)
        ensures
            r.auto_create,
            r.link_timeout_minutes == 15u32,
    {
        IdentityConfig { auto_create: default_true(), link_timeout_minutes: default_link_timeout() }
    }
}

/// Unicode whitespace, the set `str::trim` removes: the ASCII controls
/// and space, next line, and the Unicode space separators.
pub open spec fn is_space(c: char) -> bool {
    ||| ('\u{9}' <= c && c <= '\u{d}')
    ||| c == ' '
    ||| c == '\u{85}'
    ||| c == '\u{a0}'
    ||| c == '\u{1680}'
    ||| ('\u{2000}' <= c && c <= '\u{200a}')
    ||| c == '\u{2028}'
    ||| c == '\u{2029}'
    ||| c == '\u{202f}'
    ||| c == '\u{205f}'
    ||| c == '\u{3000}'
}

/// First position at or after `i` holding a non-whitespace character.
pub open spec fn skip_space(s: Seq<char>, i: int) -> int
    decreases s.len() - i,
{
    if i < 0 || i >= s.len() {
        i
    } else if is_space(s[i]) {
        skip_space(s, i + 1)
    } else {
        i
    }
}

/// `s` with leading and trailing whitespace removed.
pub open spec fn trimmed(s: Seq<char>) -> Seq<char> {
    let a = skip_space(s, 0);
    let b = trim_end_at(s, s.len() as int);
    if a <= b {
        s.subrange(a, b)
    } else {
        Seq::empty()
    }
}

/// Position after the last non-whitespace character before `i`.
pub open spec fn trim_end_at(s: Seq<char>, i: int) -> int
    decreases i,
{
    if i <= 0 || i > s.len() {
        i
    } else if is_space(s[i - 1]) {
        trim_end_at(s, i - 1)
    } else {
        i
    }
}

proof fn lemma_trim_end_at(s: Seq<char>, i: int)
    requires
        0 <= i <= s.len(),
    ensures
        0 <= trim_end_at(s, i) <= i,
    decreases i,
{
    if i > 0 && is_space(s[i - 1]) {
        lemma_trim_end_at(s, i - 1);
    }
}

/// Whether a character is whitespace.
fn is_space_x(c: char) -> (r: bool)
    ensures
        r == is_space(c),
{
    let u = c as u32;
    (9 <= u && u <= 13) || u == 32 || u == 0x85 || u == 0xa0 || u == 0x1680 || (0x2000 <= u && u
        <= 0x200a) || u == 0x2028 || u == 0x2029 || u == 0x202f || u == 0x205f || u == 0x3000
}

/// `s` with surrounding whitespace removed.
pub fn trim_chars(s: &str) -> (r: String)
    ensures
        r@ == trimmed(s@),
{
    let cs = crate::text::str_to_chars(s);
    let mut a: usize = 0;
    while a < cs.len() && is_space_x(cs[a])
        invariant
            a <= cs@.len(),
            skip_space(s@, 0) == skip_space(s@, a as int),
        decreases cs@.len() - a,
    {
        a = a + 1;
    }
    let mut b: usize = cs.len();
    while b > a && is_space_x(cs[b - 1])
        invariant
            a <= b <= cs@.len(),
            trim_end_at(s@, cs@.len() as int) == trim_end_at(s@, b as int),
        decreases b,
    {
        b = b - 1;
    }
    proof {
        lemma_trim_end_at(s@, b as int);
        if a < cs@.len() {
            assert(skip_space(s@, a as int) == a) by {
                assert(!is_space(s@[a as int]));
            }
        } else {
            assert(skip_space(s@, a as int) == a);
        }
        if b > a {
            assert(trim_end_at(s@, b as int) == b) by {
                assert(!is_space(s@[b - 1]));
            }
        }
    }
    let mut out: Vec<char> = Vec::new();
    if b > a {
        crate::text::push_range(&mut out, &cs, a, b);
        assert(out@ =~= s@.subrange(a as int, b as int));
    } else {
        assert(trim_end_at(s@, b as int) <= b);
        assert(out@ =~= Seq::<char>::empty());
    }
    chars_to_string(&out)
}

/// The value an override variable contributes: its trimmed text, unless that
/// is empty or the variable is absent.
pub open spec fn override_of(v: Option<String>) -> Option<Seq<char>> {
    match v {
        Option::Some(s) => if trimmed(s@).len() > 0 {
            Option::Some(trimmed(s@))
        } else {
            Option::None
        },
        Option::None => Option::None,
    }
}

/// The model-override variable that applies to a provider.
pub open spec fn provider_model_override(
    provider: Seq<char>,
    openrouter_model: Option<String>,
    anthropic_model: Option<String>,
    openai_model: Option<String>,
) -> Option<Seq<char>> {
    if provider == "openrouter"@ {
        override_of(openrouter_model)
    } else if provider == "anthropic"@ {
        override_of(anthropic_model)
    } else if provider == "openai"@ {
        override_of(openai_model)
    } else {
        Option::None
    }
}

/// The API-key variable name a provider implies.
pub open spec fn provider_api_key_env(provider: Seq<char>, current: Seq<char>) -> Seq<char> {
    if provider == "openrouter"@ {
        "OPENROUTER_API_KEY"@
    } else if provider == "anthropic"@ {
        "ANTHROPIC_API_KEY"@
    } else if provider == "openai"@ {
        "OPENAI_API_KEY"@
    } else {
        current
    }
}

/// Applies the environment overrides to the LLM section, in the order the
/// loader defines: the provider override first; then an explicit API-key
/// variable; then the model, the global override taking precedence over the
/// provider-specific one; and, when no explicit API-key variable was given,
/// the variable name the (possibly overridden) provider implies.
pub fn apply_env_overrides(
    llm: LlmConfig,
    provider_env: Option<String>,
    api_key_env_env: Option<String>,
    model_env: Option<String>,
    openrouter_model: Option<String>,
    anthropic_model: Option<String>,
    openai_model: Option<String>,
) -> (r: LlmConfig)
    ensures
        r.provider@ == match override_of(provider_env) {
            Option::Some(p) => p,
            Option::None => llm.provider@,
        },
        r.model@ == match override_of(model_env) {
            Option::Some(m) => m,
            Option::None => match provider_model_override(
                r.provider@,
                openrouter_model,
                anthropic_model,
                openai_model,
            ) {
                Option::Some(m) => m,
                Option::None => llm.model@,
            },
        },
        r.api_key_env@ == match override_of(api_key_env_env) {
            Option::Some(k) => k,
            Option::None => if api_key_env_env is Some {
                llm.api_key_env@
            } else {
                provider_api_key_env(r.provider@, llm.api_key_env@)
            },
        },
{
    let explicit_key = api_key_env_env.is_some();
    let mut llm = llm;
    match trim_opt(provider_env) {
        Option::Some(p) => {
            llm.provider = p;
        },
        Option::None => {},
    }
    match trim_opt(api_key_env_env) {
        Option::Some(k) => {
            llm.api_key_env = k;
        },
        Option::None => {
            if !explicit_key {
                if crate::text::str_eq(llm.provider.as_str(), "openrouter") {
                    llm.api_key_env = String::from_str("OPENROUTER_API_KEY");
                } else if crate::text::str_eq(llm.provider.as_str(), "anthropic") {
                    llm.api_key_env = String::from_str("ANTHROPIC_API_KEY");
                } else if crate::text::str_eq(llm.provider.as_str(), "openai") {
                    llm.api_key_env = String::from_str("OPENAI_API_KEY");
                }
            }
        },
    }
    match trim_opt(model_env) {
        Option::Some(m) => {
            llm.model = m;
        },
        Option::None => {
            let specific: Option<String> = if crate::text::str_eq(
                llm.provider.as_str(),
                "openrouter",
            ) {
                trim_opt(openrouter_model)
            } else if crate::text::str_eq(llm.provider.as_str(), "anthropic") {
                trim_opt(anthropic_model)
            } else if crate::text::str_eq(llm.provider.as_str(), "openai") {
                trim_opt(openai_model)
            } else {
                Option::None
            };
            match specific {
                Option::Some(m) => {
                    llm.model = m;
                },
                Option::None => {},
            }
        },
    }
    llm
}

/// The trimmed value of an override variable, when it has one.
fn trim_opt(v: Option<String>) -> (r: Option<String>)
    ensures
        match r {
            Option::Some(s) => override_of(v) == Option::Some(s@),
            Option::None => override_of(v) is None,
        },
{
    match v {
        Option::Some(s) => {
            let t = trim_chars(s.as_str());
            if t.as_str().unicode_len() > 0 {
                Option::Some(t)
            } else {
                Option::None
            }
        },
        Option::None => Option::None,
    }
}

} // verus!
