//! Channel kinds.
//!
//! The chat adapters themselves — sockets, polling, message plumbing —
//! live with the caller; the engine only names the channels a message can
//! come from.

use vstd::prelude::*;
use vstd::string::*;

verus! {

/// Where a message came from.
pub enum ChannelType {
    Discord,
    Slack,
    Telegram,
    Http,
}

impl ChannelType {
    /// The channel's lowercase name, as logs and receipts show it.
    pub fn name(&self) -> (r: String)
        ensures
            *self is Discord ==> r@ == "discord"@,
            *self is Slack ==> r@ == "slack"@,
            *self is Telegram ==> r@ == "telegram"@,
            *self is Http ==> r@ == "http"@,
    {
        match self {
            ChannelType::Discord => String::from_str("discord"),
            ChannelType::Slack => String::from_str("slack"),
            ChannelType::Telegram => String::from_str("telegram"),
            ChannelType::Http => String::from_str("http"),
        }
    }
}

/// A mention of the bot, in its plain form.
pub open spec fn mention_pat(bot_id: Seq<char>) -> Seq<char> {
    "<@"@ + bot_id + ">"@
}

/// A mention of the bot, in its nickname form.
pub open spec fn nick_mention_pat(bot_id: Seq<char>) -> Seq<char> {
    "<@!"@ + bot_id + ">"@
}

/// Whether a chat message should trigger the bot: never for another bot's
/// message; under `all`, always; under `dm_only`, only in direct messages;
/// under `mention` (or anything else), only when the bot is mentioned,
/// either in the message's mention list or spelled in its text.
pub open spec fn responds(
    trigger: Seq<char>,
    author_is_bot: bool,
    is_dm: bool,
    mentioned: bool,
    content: Seq<char>,
    bot_id: Seq<char>,
) -> bool {
    if author_is_bot {
        false
    } else if trigger == "all"@ {
        true
    } else if trigger == "dm_only"@ {
        is_dm
    } else {
        mentioned || crate::text::contains_sub(content, mention_pat(bot_id))
            || crate::text::contains_sub(content, nick_mention_pat(bot_id))
    }
}

/// Decides whether a message triggers the bot.
pub fn should_respond(
    trigger: &str,
    author_is_bot: bool,
    is_dm: bool,
    mentioned: bool,
    content: &str,
    bot_id: &str,
) -> (r: bool)
    ensures
        r == responds(trigger@, author_is_bot, is_dm, mentioned, content@, bot_id@),
{
    if author_is_bot {
        return false;
    }
    if crate::text::str_eq(trigger, "all") {
        return true;
    }
    if crate::text::str_eq(trigger, "dm_only") {
        return is_dm;
    }
    if mentioned {
        return true;
    }
    let plain = crate::executor::concat3("<@", bot_id, ">");
    let nick = crate::executor::concat3("<@!", bot_id, ">");
    proof {
        assert(nick@ =~= "<@!"@ + bot_id@ + ">"@);
    }
    crate::text::str_contains(content, plain.as_str()) || crate::text::str_contains(
        content,
        nick.as_str(),
    )
}

/// A message with both mention forms removed and the whitespace around
/// what is left trimmed away.
pub fn clean_content(content: &str, bot_id: &str) -> (r: String)
    ensures
        r@ == crate::config::trimmed(
            crate::text::replace_all(
                crate::text::replace_all(content@, mention_pat(bot_id@), Seq::empty()),
                nick_mention_pat(bot_id@),
                Seq::empty(),
            ),
        ),
{
    let cs = crate::text::str_to_chars(content);
    let plain = crate::executor::concat3("<@", bot_id, ">");
    let nick = crate::executor::concat3("<@!", bot_id, ">");
    proof {
        assert(nick@ =~= "<@!"@ + bot_id@ + ">"@);
    }
    let plain_cs = crate::text::str_to_chars(plain.as_str());
    let nick_cs = crate::text::str_to_chars(nick.as_str());
    let empty: Vec<char> = Vec::new();
    assert(empty@ =~= Seq::<char>::empty());
    let pass1 = crate::text::replace_chars(&cs, &plain_cs, &empty);
    let pass2 = crate::text::replace_chars(&pass1, &nick_cs, &empty);
    let text = crate::text::chars_to_string(&pass2);
    crate::config::trim_chars(text.as_str())
}

} // verus!
