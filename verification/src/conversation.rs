//! Conversation accounting.
//!
//! Message history is persisted by the caller's store; the summary
//! statistics over a history — counts per role and the channels used —
//! are here.

use vstd::prelude::*;
use vstd::string::*;

use crate::json::{jvals_of, JVal, Json};

verus! {

/// A summary of one user's history.
pub struct ConversationStats {
    pub total_messages: usize,
    pub user_messages: usize,
    pub assistant_messages: usize,
    pub tool_messages: usize,
    pub channels_used: Vec<String>,
}

/// How many messages carry a role.
pub open spec fn count_role(msgs: Seq<(String, String)>, role: Seq<char>) -> int
    decreases msgs.len(),
{
    if msgs.len() == 0 {
        0
    } else {
        (if msgs.first().0@ == role {
            1int
        } else {
            0int
        }) + count_role(msgs.drop_first(), role)
    }
}

/// Whether a channel name occurs among the views of collected channels.
pub open spec fn channel_seen(cs: Seq<String>, name: Seq<char>) -> bool {
    exists|i: int| 0 <= i < cs.len() && (#[trigger] cs[i])@ == name
}

/// Summarizes a history of `(role, channel)` pairs: totals per role, and
/// each channel once, in order of first appearance.
pub fn conversation_stats(messages: &Vec<(String, String)>) -> (r: ConversationStats)
    ensures
        r.total_messages == messages@.len(),
        r.user_messages == count_role(messages@, "user"@),
        r.assistant_messages == count_role(messages@, "assistant"@),
        r.tool_messages == count_role(messages@, "tool"@),
        forall|i: int| 0 <= i < messages@.len() ==> channel_seen(
            r.channels_used@,
            (#[trigger] messages@[i]).1@,
        ),
        forall|i: int| 0 <= i < r.channels_used@.len() ==> exists|j: int|
            0 <= j < messages@.len() && (#[trigger] r.channels_used@[i])@ == messages@[j].1@,
        forall|i: int, j: int|
            0 <= i < j < r.channels_used@.len() ==> (#[trigger] r.channels_used@[i])@ != (
            #[trigger] r.channels_used@[j])@,
{
    let mut user_messages: usize = 0;
    let mut assistant_messages: usize = 0;
    let mut tool_messages: usize = 0;
    let mut channels_used: Vec<String> = Vec::new();
    let mut i: usize = 0;
    assert(messages@.subrange(0, messages@.len() as int) =~= messages@);
    while i < messages.len()
        invariant
            i <= messages@.len(),
            user_messages <= i,
            assistant_messages <= i,
            tool_messages <= i,
            user_messages + count_role(
                messages@.subrange(i as int, messages@.len() as int),
                "user"@,
            ) == count_role(messages@, "user"@),
            assistant_messages + count_role(
                messages@.subrange(i as int, messages@.len() as int),
                "assistant"@,
            ) == count_role(messages@, "assistant"@),
            tool_messages + count_role(
                messages@.subrange(i as int, messages@.len() as int),
                "tool"@,
            ) == count_role(messages@, "tool"@),
            forall|k: int| 0 <= k < i ==> channel_seen(
                channels_used@,
                (#[trigger] messages@[k]).1@,
            ),
            forall|k: int| 0 <= k < channels_used@.len() ==> exists|j: int|
                0 <= j < messages@.len() && (#[trigger] channels_used@[k])@ == messages@[j].1@,
            forall|k: int, l: int|
                0 <= k < l < channels_used@.len() ==> (#[trigger] channels_used@[k])@ != (
                #[trigger] channels_used@[l])@,
        decreases messages@.len() - i,
    {
        let ghost rest = messages@.subrange(i as int, messages@.len() as int);
        proof {
            assert(rest.first() == messages@[i as int]);
            assert(rest.drop_first() =~= messages@.subrange(
                i + 1 as int,
                messages@.len() as int,
            ));
        }
        let pair = &messages[i];
        if crate::text::str_eq(pair.0.as_str(), "user") {
            user_messages = user_messages + 1;
        }
        if crate::text::str_eq(pair.0.as_str(), "assistant") {
            assistant_messages = assistant_messages + 1;
        }
        if crate::text::str_eq(pair.0.as_str(), "tool") {
            tool_messages = tool_messages + 1;
        }
        let mut seen = false;
        let mut j: usize = 0;
        while j < channels_used.len()
            invariant
                j <= channels_used@.len(),
                seen == (exists|k: int|
                    0 <= k < j && (#[trigger] channels_used@[k])@ == messages@[i as int].1@),
            decreases channels_used@.len() - j,
        {
            if crate::text::str_eq(channels_used[j].as_str(), pair.1.as_str()) {
                seen = true;
            }
            j = j + 1;
        }
        let ghost cu0 = channels_used@;
        if !seen {
            channels_used.push(crate::json::copy_string(&pair.1));
        }
        proof {
            assert forall|k: int| 0 <= k <= i as int implies channel_seen(
                channels_used@,
                (#[trigger] messages@[k]).1@,
            ) by {
                if k < i as int {
                    let w = choose|w: int|
                        0 <= w < cu0.len() && (#[trigger] cu0[w])@ == messages@[k].1@;
                    assert(channels_used@[w]@ == messages@[k].1@);
                } else {
                    if seen {
                        let w = choose|w: int|
                            0 <= w < cu0.len() && (#[trigger] cu0[w])@ == messages@[i as int].1@;
                        assert(channels_used@[w]@ == messages@[i as int].1@);
                    } else {
                        assert(channels_used@[cu0.len() as int]@ == messages@[i as int].1@);
                    }
                }
            }
        }
        i = i + 1;
    }
    proof {
        assert(count_role(
            messages@.subrange(messages@.len() as int, messages@.len() as int),
            "user"@,
        ) == 0);
        assert(count_role(
            messages@.subrange(messages@.len() as int, messages@.len() as int),
            "assistant"@,
        ) == 0);
        assert(count_role(
            messages@.subrange(messages@.len() as int, messages@.len() as int),
            "tool"@,
        ) == 0);
    }
    ConversationStats {
        total_messages: messages.len(),
        user_messages,
        assistant_messages,
        tool_messages,
        channels_used,
    }
}

/// The chat message a `(role, content)` pair becomes on the wire.
pub open spec fn llm_message_jval(role: Seq<char>, content: Seq<char>) -> JVal {
    JVal::Obj(seq![("role"@, JVal::Str(role)), ("content"@, JVal::Str(content))])
}

/// Stored `(role, content)` messages as the array a chat call sends.
pub fn messages_to_llm_format(messages: &Vec<(String, String)>) -> (r: Json)
    ensures
        r@ == JVal::Arr(
            Seq::new(messages@.len(), |i: int| llm_message_jval(
                messages@[i].0@,
                messages@[i].1@,
            )),
        ),
{
    let mut items: Vec<Json> = Vec::new();
    let mut i: usize = 0;
    while i < messages.len()
        invariant
            i <= messages@.len(),
            items@.len() == i,
            forall|k: int| 0 <= k < i ==> (#[trigger] items@[k])@ == llm_message_jval(
                messages@[k].0@,
                messages@[k].1@,
            ),
        decreases messages@.len() - i,
    {
        let pair = &messages[i];
        let mut b = crate::json::ObjBuilder::new();
        b.add("role", Json::Str(crate::json::copy_string(&pair.0)));
        b.add("content", Json::Str(crate::json::copy_string(&pair.1)));
        let m = b.build();
        assert(m@->Obj_0 =~= llm_message_jval(messages@[i as int].0@, messages@[i as int].1@)->Obj_0);
        assert(m@ == llm_message_jval(messages@[i as int].0@, messages@[i as int].1@));
        items.push(m);
        i = i + 1;
    }
    let r = crate::json::json_arr(items);
    assert(r@->Arr_0 =~= Seq::new(messages@.len(), |i: int| llm_message_jval(
        messages@[i].0@,
        messages@[i].1@,
    )));
    assert(r@ == JVal::Arr(Seq::new(messages@.len(), |i: int| llm_message_jval(
        messages@[i].0@,
        messages@[i].1@,
    ))));
    r
}

/// The messages array a chat call sends: the system prompt first, then the
/// stored history in order.
pub fn build_llm_messages(system_prompt: &str, history: &Vec<(String, String)>) -> (r: Json)
    ensures
        r@ matches JVal::Arr(items) && items.len() == history@.len() + 1 && items[0]
            == llm_message_jval("system"@, system_prompt@) && (forall|i: int|
            0 <= i < history@.len() ==> items[i + 1] == llm_message_jval(
                (#[trigger] history@[i]).0@,
                history@[i].1@,
            )),
{
    let mut items: Vec<Json> = Vec::new();
    let mut b = crate::json::ObjBuilder::new();
    b.add("role", Json::Str(String::from_str("system")));
    b.add("content", Json::Str(String::from_str(system_prompt)));
    let sys = b.build();
    assert(sys@->Obj_0 =~= llm_message_jval("system"@, system_prompt@)->Obj_0);
    assert(sys@ == llm_message_jval("system"@, system_prompt@));
    items.push(sys);
    let mut i: usize = 0;
    while i < history.len()
        invariant
            i <= history@.len(),
            items@.len() == i + 1,
            items@[0]@ == llm_message_jval("system"@, system_prompt@),
            forall|k: int| 0 <= k < i ==> (#[trigger] items@[k + 1])@ == llm_message_jval(
                history@[k].0@,
                history@[k].1@,
            ),
        decreases history@.len() - i,
    {
        let pair = &history[i];
        let mut b = crate::json::ObjBuilder::new();
        b.add("role", Json::Str(crate::json::copy_string(&pair.0)));
        b.add("content", Json::Str(crate::json::copy_string(&pair.1)));
        let m = b.build();
        assert(m@->Obj_0 =~= llm_message_jval(history@[i as int].0@, history@[i as int].1@)->Obj_0);
        assert(m@ == llm_message_jval(history@[i as int].0@, history@[i as int].1@));
        items.push(m);
        i = i + 1;
    }
    let ghost iv = items@;
    let r = Json::Arr(items);
    assert(r@->Arr_0 =~= jvals_of(iv));
    assert(r@ == JVal::Arr(jvals_of(iv)));
    r
}

} // verus!
