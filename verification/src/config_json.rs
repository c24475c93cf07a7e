//! The JSON rendering of the configuration.
//!
//! A receipt records a digest of the active configuration; this module
//! defines the exact document that digest is taken over: every section in
//! declaration order, lists as arrays, absent options as `null`.

use vstd::prelude::*;

use crate::config::{
    ArtifactsConfig, ChannelsConfig, ControlPlaneConfig, DiscordChannelConfig, ExecutorsConfig,
    HttpChannelConfig, HttpConfig, IdentityConfig, LlmConfig, LoggingConfig, MemoryConfig, Node,
    NodeConfig, SlackChannelConfig, StoreConfig, TelegramChannelConfig,
};
use crate::json::{JVal, Json, ObjBuilder};

verus! {

/// Strings as an array of JSON strings.
pub open spec fn strs_jvals(ss: Seq<String>) -> Seq<JVal> {
    Seq::new(ss.len(), |i: int| JVal::Str(ss[i]@))
}

fn strs_to_json(v: &Vec<String>) -> (r: Json)
    ensures
        r@ == JVal::Arr(strs_jvals(v@)),
{
    let mut items: Vec<Json> = Vec::new();
    let mut i: usize = 0;
    while i < v.len()
        invariant
            i <= v.len(),
            items@.len() == i,
            forall|k: int| 0 <= k < i ==> (#[trigger] items@[k])@ == JVal::Str(v@[k]@),
        decreases v.len() - i,
    {
        items.push(Json::Str(crate::json::copy_string(&v[i])));
        i = i + 1;
    }
    let r = crate::json::json_arr(items);
    assert(r@->Arr_0 =~= strs_jvals(v@));
    assert(r@ == JVal::Arr(strs_jvals(v@)));
    r
}

/// An optional string as a JSON string or `null`.
pub open spec fn opt_str_jval(v: Option<String>) -> JVal {
    match v {
        Option::Some(s) => JVal::Str(s@),
        Option::None => JVal::Null,
    }
}

fn opt_str_to_json(v: &Option<String>) -> (r: Json)
    ensures
        r@ == opt_str_jval(*v),
{
    match v {
        Option::Some(s) => Json::Str(crate::json::copy_string(s)),
        Option::None => Json::Null,
    }
}

pub open spec fn node_jval(c: &Node) -> JVal {
    JVal::Obj(
        seq![
            ("id"@, JVal::Str(c.id@)),
            ("name"@, JVal::Str(c.name@)),
            ("environment"@, JVal::Str(c.environment@)),
        ],
    )
}

pub open spec fn llm_jval(c: &LlmConfig) -> JVal {
    JVal::Obj(
        seq![
            ("provider"@, JVal::Str(c.provider@)),
            ("api_key_env"@, JVal::Str(c.api_key_env@)),
            ("model"@, JVal::Str(c.model@)),
        ],
    )
}

pub open spec fn security_jval(c: &crate::config::SecurityConfig) -> JVal {
    JVal::Obj(
        seq![
            ("mode"@, JVal::Str(c.mode@)),
            ("allowed_executors"@, JVal::Arr(strs_jvals(c.allowed_executors@))),
        ],
    )
}

pub open spec fn http_jval(c: &HttpConfig) -> JVal {
    JVal::Obj(seq![("allowed_domains"@, JVal::Arr(strs_jvals(c.allowed_domains@)))])
}

pub open spec fn executors_jval(c: &ExecutorsConfig) -> JVal {
    JVal::Obj(seq![("enabled"@, JVal::Arr(strs_jvals(c.enabled@)))])
}

/// A machine word as a JSON integer; a value beyond the signed 64-bit
/// range saturates.
pub open spec fn usize_jval(n: usize) -> JVal {
    if n as int <= 0x7fff_ffff_ffff_ffff {
        JVal::Int(n as int)
    } else {
        JVal::Int(0x7fff_ffff_ffff_ffff)
    }
}

pub open spec fn memory_jval(c: &MemoryConfig) -> JVal {
    JVal::Obj(
        seq![
            ("session_max_messages"@, usize_jval(c.session_max_messages)),
            ("preferences_path"@, JVal::Str(c.preferences_path@)),
        ],
    )
}

pub open spec fn artifacts_jval(c: &ArtifactsConfig) -> JVal {
    JVal::Obj(
        seq![("storage"@, JVal::Str(c.storage@)), ("path"@, JVal::Str(c.path@))],
    )
}

pub open spec fn logging_jval(c: &LoggingConfig) -> JVal {
    JVal::Obj(seq![("level"@, JVal::Str(c.level@)), ("path"@, JVal::Str(c.path@))])
}

pub open spec fn control_plane_jval(c: &ControlPlaneConfig) -> JVal {
    JVal::Obj(
        seq![("url"@, opt_str_jval(c.url)), ("token"@, opt_str_jval(c.token))],
    )
}

pub open spec fn discord_jval(c: &DiscordChannelConfig) -> JVal {
    JVal::Obj(
        seq![
            ("enabled"@, JVal::Bool(c.enabled)),
            ("token_env"@, JVal::Str(c.token_env@)),
            ("listen_guilds"@, JVal::Arr(strs_jvals(c.listen_guilds@))),
            ("listen_channels"@, JVal::Arr(strs_jvals(c.listen_channels@))),
            ("trigger"@, JVal::Str(c.trigger@)),
        ],
    )
}

pub open spec fn slack_jval(c: &SlackChannelConfig) -> JVal {
    JVal::Obj(
        seq![
            ("enabled"@, JVal::Bool(c.enabled)),
            ("token_env"@, JVal::Str(c.token_env@)),
            ("app_token_env"@, JVal::Str(c.app_token_env@)),
            ("listen_channels"@, JVal::Arr(strs_jvals(c.listen_channels@))),
        ],
    )
}

pub open spec fn telegram_jval(c: &TelegramChannelConfig) -> JVal {
    JVal::Obj(
        seq![
            ("enabled"@, JVal::Bool(c.enabled)),
            ("token_env"@, JVal::Str(c.token_env@)),
            ("allowed_users"@, JVal::Arr(strs_jvals(c.allowed_users@))),
        ],
    )
}

pub open spec fn http_channel_jval(c: &HttpChannelConfig) -> JVal {
    JVal::Obj(
        seq![("enabled"@, JVal::Bool(c.enabled)), ("port"@, JVal::Int(c.port as int))],
    )
}

pub open spec fn channels_jval(c: &ChannelsConfig) -> JVal {
    JVal::Obj(
        seq![
            ("discord"@, discord_jval(&c.discord)),
            ("slack"@, slack_jval(&c.slack)),
            ("telegram"@, telegram_jval(&c.telegram)),
            ("http"@, http_channel_jval(&c.http)),
        ],
    )
}

pub open spec fn store_jval(c: &StoreConfig) -> JVal {
    JVal::Obj(
        seq![
            ("store_type"@, JVal::Str(c.store_type@)),
            ("sqlite_path"@, JVal::Str(c.sqlite_path@)),
        ],
    )
}

pub open spec fn identity_jval(c: &IdentityConfig) -> JVal {
    JVal::Obj(
        seq![
            ("auto_create"@, JVal::Bool(c.auto_create)),
            ("link_timeout_minutes"@, JVal::Int(c.link_timeout_minutes as int)),
        ],
    )
}

/// The whole configuration document.
pub open spec fn config_jval(c: &NodeConfig) -> JVal {
    JVal::Obj(
        seq![
            ("node"@, node_jval(&c.node)),
            ("llm"@, llm_jval(&c.llm)),
            ("security"@, security_jval(&c.security)),
            ("http"@, http_jval(&c.http)),
            ("executors"@, executors_jval(&c.executors)),
            ("memory"@, memory_jval(&c.memory)),
            ("artifacts"@, artifacts_jval(&c.artifacts)),
            ("logging"@, logging_jval(&c.logging)),
            ("control_plane"@, control_plane_jval(&c.control_plane)),
            ("channels"@, channels_jval(&c.channels)),
            ("store"@, store_jval(&c.store)),
            ("identity"@, identity_jval(&c.identity)),
        ],
    )
}

fn node_to_json(c: &Node) -> (r: Json)
    ensures
        r@ == node_jval(c),
{
    let mut b = ObjBuilder::new();
    b.add("id", Json::Str(crate::json::copy_string(&c.id)));
    b.add("name", Json::Str(crate::json::copy_string(&c.name)));
    b.add("environment", Json::Str(crate::json::copy_string(&c.environment)));
    let r = b.build();
    assert(r@->Obj_0 =~= node_jval(c)->Obj_0);
    assert(r@ == node_jval(c));
    r
}

fn llm_to_json(c: &LlmConfig) -> (r: Json)
    ensures
        r@ == llm_jval(c),
{
    let mut b = ObjBuilder::new();
    b.add("provider", Json::Str(crate::json::copy_string(&c.provider)));
    b.add("api_key_env", Json::Str(crate::json::copy_string(&c.api_key_env)));
    b.add("model", Json::Str(crate::json::copy_string(&c.model)));
    let r = b.build();
    assert(r@->Obj_0 =~= llm_jval(c)->Obj_0);
    assert(r@ == llm_jval(c));
    r
}

fn security_to_json(c: &crate::config::SecurityConfig) -> (r: Json)
    ensures
        r@ == security_jval(c),
{
    let mut b = ObjBuilder::new();
    b.add("mode", Json::Str(crate::json::copy_string(&c.mode)));
    b.add("allowed_executors", strs_to_json(&c.allowed_executors));
    let r = b.build();
    assert(r@->Obj_0 =~= security_jval(c)->Obj_0);
    assert(r@ == security_jval(c));
    r
}

fn channels_to_json(c: &ChannelsConfig) -> (r: Json)
    ensures
        r@ == channels_jval(c),
{
    let mut d = ObjBuilder::new();
    d.add("enabled", Json::Bool(c.discord.enabled));
    d.add("token_env", Json::Str(crate::json::copy_string(&c.discord.token_env)));
    d.add("listen_guilds", strs_to_json(&c.discord.listen_guilds));
    d.add("listen_channels", strs_to_json(&c.discord.listen_channels));
    d.add("trigger", Json::Str(crate::json::copy_string(&c.discord.trigger)));
    let discord = d.build();
    assert(discord@->Obj_0 =~= discord_jval(&c.discord)->Obj_0);
    assert(discord@ == discord_jval(&c.discord));
    let mut s = ObjBuilder::new();
    s.add("enabled", Json::Bool(c.slack.enabled));
    s.add("token_env", Json::Str(crate::json::copy_string(&c.slack.token_env)));
    s.add("app_token_env", Json::Str(crate::json::copy_string(&c.slack.app_token_env)));
    s.add("listen_channels", strs_to_json(&c.slack.listen_channels));
    let slack = s.build();
    assert(slack@->Obj_0 =~= slack_jval(&c.slack)->Obj_0);
    assert(slack@ == slack_jval(&c.slack));
    let mut t = ObjBuilder::new();
    t.add("enabled", Json::Bool(c.telegram.enabled));
    t.add("token_env", Json::Str(crate::json::copy_string(&c.telegram.token_env)));
    t.add("allowed_users", strs_to_json(&c.telegram.allowed_users));
    let telegram = t.build();
    assert(telegram@->Obj_0 =~= telegram_jval(&c.telegram)->Obj_0);
    assert(telegram@ == telegram_jval(&c.telegram));
    let mut h = ObjBuilder::new();
    h.add("enabled", Json::Bool(c.http.enabled));
    h.add("port", Json::Int(c.http.port as i64));
    let http = h.build();
    assert(http@->Obj_0 =~= http_channel_jval(&c.http)->Obj_0);
    assert(http@ == http_channel_jval(&c.http));
    let mut b = ObjBuilder::new();
    b.add("discord", discord);
    b.add("slack", slack);
    b.add("telegram", telegram);
    b.add("http", http);
    let r = b.build();
    assert(r@->Obj_0 =~= channels_jval(c)->Obj_0);
    assert(r@ == channels_jval(c));
    r
}

/// The configuration as the JSON document its digest is taken over.
pub fn config_to_json(c: &NodeConfig) -> (r: Json)
    ensures
        r@ == config_jval(c),
{
    let node = node_to_json(&c.node);
    let llm = llm_to_json(&c.llm);
    let security = security_to_json(&c.security);
    let mut hb = ObjBuilder::new();
    hb.add("allowed_domains", strs_to_json(&c.http.allowed_domains));
    let http = hb.build();
    assert(http@->Obj_0 =~= http_jval(&c.http)->Obj_0);
    assert(http@ == http_jval(&c.http));
    let mut eb = ObjBuilder::new();
    eb.add("enabled", strs_to_json(&c.executors.enabled));
    let executors = eb.build();
    assert(executors@->Obj_0 =~= executors_jval(&c.executors)->Obj_0);
    assert(executors@ == executors_jval(&c.executors));
    let mut mb = ObjBuilder::new();
    mb.add("session_max_messages", usize_json(c.memory.session_max_messages));
    mb.add("preferences_path", Json::Str(crate::json::copy_string(&c.memory.preferences_path)));
    let memory = mb.build();
    assert(memory@->Obj_0 =~= memory_jval(&c.memory)->Obj_0);
    assert(memory@ == memory_jval(&c.memory));
    let mut ab = ObjBuilder::new();
    ab.add("storage", Json::Str(crate::json::copy_string(&c.artifacts.storage)));
    ab.add("path", Json::Str(crate::json::copy_string(&c.artifacts.path)));
    let artifacts = ab.build();
    assert(artifacts@->Obj_0 =~= artifacts_jval(&c.artifacts)->Obj_0);
    assert(artifacts@ == artifacts_jval(&c.artifacts));
    let mut lb = ObjBuilder::new();
    lb.add("level", Json::Str(crate::json::copy_string(&c.logging.level)));
    lb.add("path", Json::Str(crate::json::copy_string(&c.logging.path)));
    let logging = lb.build();
    assert(logging@->Obj_0 =~= logging_jval(&c.logging)->Obj_0);
    assert(logging@ == logging_jval(&c.logging));
    let mut cb = ObjBuilder::new();
    cb.add("url", opt_str_to_json(&c.control_plane.url));
    cb.add("token", opt_str_to_json(&c.control_plane.token));
    let control_plane = cb.build();
    assert(control_plane@->Obj_0 =~= control_plane_jval(&c.control_plane)->Obj_0);
    assert(control_plane@ == control_plane_jval(&c.control_plane));
    let channels = channels_to_json(&c.channels);
    let mut sb = ObjBuilder::new();
    sb.add("store_type", Json::Str(crate::json::copy_string(&c.store.store_type)));
    sb.add("sqlite_path", Json::Str(crate::json::copy_string(&c.store.sqlite_path)));
    let store = sb.build();
    assert(store@->Obj_0 =~= store_jval(&c.store)->Obj_0);
    assert(store@ == store_jval(&c.store));
    let mut ib = ObjBuilder::new();
    ib.add("auto_create", Json::Bool(c.identity.auto_create));
    ib.add("link_timeout_minutes", Json::Int(c.identity.link_timeout_minutes as i64));
    let identity = ib.build();
    assert(identity@->Obj_0 =~= identity_jval(&c.identity)->Obj_0);
    assert(identity@ == identity_jval(&c.identity));
    let mut b = ObjBuilder::new();
    b.add("node", node);
    b.add("llm", llm);
    b.add("security", security);
    b.add("http", http);
    b.add("executors", executors);
    b.add("memory", memory);
    b.add("artifacts", artifacts);
    b.add("logging", logging);
    b.add("control_plane", control_plane);
    b.add("channels", channels);
    b.add("store", store);
    b.add("identity", identity);
    let r = b.build();
    assert(r@->Obj_0 =~= config_jval(c)->Obj_0);
    assert(r@ == config_jval(c));
    r
}

/// A `usize` as a JSON integer; a value beyond the signed 64-bit range
/// saturates.
fn usize_json(n: usize) -> (r: Json)
    ensures
        r@ == usize_jval(n),
{
    let m: u64 = n as u64;
    if m <= 0x7fff_ffff_ffff_ffffu64 {
        Json::Int(m as i64)
    } else {
        Json::Int(i64::MAX)
    }
}

} // verus!
