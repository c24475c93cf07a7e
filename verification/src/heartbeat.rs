//! Heartbeat decisions.
//!
//! A periodic check reads a checklist, asks the model about it, and either
//! stays quiet or raises an alert.  The timer and the I/O live with the
//! caller; the configuration defaults, the emptiness test on the
//! checklist, and the verdict on the model's reply are here.

use vstd::prelude::*;
use vstd::string::*;

use crate::config::trimmed;
use crate::text::{has_prefix, has_suffix, replace_all, split_on};

verus! {

/// When and where the heartbeat runs.
pub struct HeartbeatConfig {
    pub enabled: bool,
    pub interval_secs: u64,
    pub target_channel: String,
}

/// Builds the heartbeat configuration from the environment's parsed
/// values: enabled by default, every half hour, targeting the last
/// channel.
pub fn heartbeat_config_from_env(
    enabled: Option<bool>,
    interval_secs: Option<u64>,
    target: Option<String>,
) -> (r: HeartbeatConfig)
    ensures
        r.enabled == (match enabled {
            Option::Some(b) => b,
            Option::None => true,
        }),
        r.interval_secs == (match interval_secs {
            Option::Some(v) => v,
            Option::None => 1800u64,
        }),
        r.target_channel@ == (match target {
            Option::Some(t) => t@,
            Option::None => "last"@,
        }),
{
    HeartbeatConfig {
        enabled: match enabled {
            Option::Some(b) => b,
            Option::None => true,
        },
        interval_secs: match interval_secs {
            Option::Some(v) => v,
            Option::None => 1800,
        },
        target_channel: match target {
            Option::Some(t) => t,
            Option::None => String::from_str("last"),
        },
    }
}

/// A checklist with nothing but headers and blank lines is effectively
/// empty.
pub open spec fn effectively_empty(content: Seq<char>) -> bool {
    forall|i: int|
        0 <= i < split_on(content, '\n').len() ==> {
            let line = trimmed(#[trigger] split_on(content, '\n')[i]);
            line.len() == 0 || line[0] == '#'
        }
}

/// Whether a checklist holds only headers and blank lines.
pub fn is_effectively_empty(content: &str) -> (r: bool)
    ensures
        r == effectively_empty(content@),
{
    let cs = crate::text::str_to_chars(content);
    let lines = crate::text::split_chars(&cs, '\n');
    let ghost slines = split_on(content@, '\n');
    assert(slines.len() == lines@.len());
    let mut i: usize = 0;
    while i < lines.len()
        invariant
            i <= lines@.len(),
            slines == split_on(content@, '\n'),
            slines.len() == lines@.len(),
            forall|j: int| 0 <= j < lines@.len() ==> (#[trigger] lines@[j])@ == slines[j],
            forall|j: int| 0 <= j < i ==> {
                let line = trimmed(#[trigger] slines[j]);
                line.len() == 0 || line[0] == '#'
            },
        decreases lines@.len() - i,
    {
        let line = crate::text::chars_to_string(&lines[i]);
        let t = crate::config::trim_chars(line.as_str());
        let n = t.as_str().unicode_len();
        if n > 0 && t.as_str().get_char(0) != '#' {
            return false;
        }
        i = i + 1;
    }
    true
}

/// The verdict on a heartbeat reply.
pub enum HeartbeatVerdict {
    Quiet,
    Alert { message: String },
}

/// A reply acknowledges the heartbeat when, trimmed, it is exactly
/// `HEARTBEAT_OK` or begins or ends with it.
pub open spec fn acknowledges(t: Seq<char>) -> bool {
    t == "HEARTBEAT_OK"@ || has_prefix(t, "HEARTBEAT_OK"@) || has_suffix(t, "HEARTBEAT_OK"@)
}

/// What is left of an acknowledging reply once the marker is removed.
pub open spec fn residue(t: Seq<char>) -> Seq<char> {
    trimmed(replace_all(t, "HEARTBEAT_OK"@, Seq::empty()))
}

/// Judges a heartbeat reply.
pub fn heartbeat_verdict(content: &str) -> (r: HeartbeatVerdict)
    ensures
        acknowledges(trimmed(content@)) && residue(trimmed(content@)).len() <= 300 ==> r is Quiet,
        acknowledges(trimmed(content@)) && residue(trimmed(content@)).len() > 300 ==> (r matches
            HeartbeatVerdict::Alert { message } && message@ == residue(trimmed(content@))),
        !acknowledges(trimmed(content@)) ==> (r matches HeartbeatVerdict::Alert { message }
            && message@ == trimmed(content@)),
{
    let t = crate::config::trim_chars(content);
    let exact = crate::text::str_eq(t.as_str(), "HEARTBEAT_OK");
    let pre = crate::text::str_has_prefix(t.as_str(), "HEARTBEAT_OK");
    let suf = crate::text::str_has_suffix(t.as_str(), "HEARTBEAT_OK");
    if exact || pre || suf {
        let tc = crate::text::str_to_chars(t.as_str());
        let marker = crate::text::str_to_chars("HEARTBEAT_OK");
        let empty: Vec<char> = Vec::new();
        let replaced = crate::text::replace_chars(&tc, &marker, &empty);
        assert(empty@ =~= Seq::<char>::empty());
        let replaced_str = crate::text::chars_to_string(&replaced);
        let remaining = crate::config::trim_chars(replaced_str.as_str());
        if remaining.as_str().unicode_len() <= 300 {
            HeartbeatVerdict::Quiet
        } else {
            HeartbeatVerdict::Alert { message: remaining }
        }
    } else {
        HeartbeatVerdict::Alert { message: t }
    }
}

/// The prompt a heartbeat run sends: the checklist, the available tools,
/// and the standing instructions.
pub fn build_heartbeat_prompt(heartbeat_md: &str, tools_section: &str) -> (r: String)
    ensures
        r@ == "You are running a periodic heartbeat check.\n\n# HEARTBEAT CHECKLIST\n"@
            + heartbeat_md@ + "\n\n# AVAILABLE TOOLS\n"@ + tools_section@
            + "\n\n# INSTRUCTIONS\n- Read the checklist above and check if anything needs attention\n- If nothing urgent: reply EXACTLY with \"HEARTBEAT_OK\" (no other text)\n- If something needs attention: describe it briefly and clearly (no HEARTBEAT_OK)\n- Keep responses under 300 characters unless urgent\n- Do not repeat old tasks from prior conversations\n- Focus only on new/urgent items"@,
{
    let mut out = String::from_str("You are running a periodic heartbeat check.\n\n# HEARTBEAT CHECKLIST\n");
    out.append(heartbeat_md);
    out.append("\n\n# AVAILABLE TOOLS\n");
    out.append(tools_section);
    out.append(
        "\n\n# INSTRUCTIONS\n- Read the checklist above and check if anything needs attention\n- If nothing urgent: reply EXACTLY with \"HEARTBEAT_OK\" (no other text)\n- If something needs attention: describe it briefly and clearly (no HEARTBEAT_OK)\n- Keep responses under 300 characters unless urgent\n- Do not repeat old tasks from prior conversations\n- Focus only on new/urgent items",
    );
    out
}

} // verus!
