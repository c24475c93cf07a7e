//! Request-handling helpers.
//!
//! The HTTP server and its routes live with the caller; the pure pieces a
//! chat request needs — the call timeout, the tool listing, and the text
//! shown for each dispatch outcome — are here.

use vstd::prelude::*;
use vstd::string::*;

use crate::executor::ExecutorResult;
use crate::json::JVal;

verus! {

/// The channel a chat request falls back to when it names none.
pub fn default_channel() -> (r: String)
    ensures
        r@ == "http"@,
{
    String::from_str("http")
}

/// The ceiling on one chat call, in seconds: the configured value when it
/// allows at least five seconds, sixty-five otherwise.
pub fn llm_timeout_secs(configured: Option<u64>) -> (r: u64)
    ensures
        r == (match configured {
            Option::Some(v) => if v >= 5 {
                v
            } else {
                65u64
            },
            Option::None => 65u64,
        }),
{
    match configured {
        Option::Some(v) => if v >= 5 {
            v
        } else {
            65
        },
        Option::None => 65,
    }
}

/// The lines a tool listing shows.
pub open spec fn tools_lines(tools: Seq<(String, String)>) -> Seq<char>
    decreases tools.len(),
{
    if tools.len() == 0 {
        Seq::empty()
    } else {
        "- "@ + tools.first().0@ + ": "@ + tools.first().1@ + "\n"@ + tools_lines(
            tools.drop_first(),
        )
    }
}

/// Lists tools as `- id: description` lines, or says none are available.
pub fn format_tools(tools: &Vec<(String, String)>) -> (r: String)
    ensures
        tools@.len() == 0 ==> r@ == "No tools available."@,
        tools@.len() > 0 ==> r@ == tools_lines(tools@),
{
    if tools.len() == 0 {
        return String::from_str("No tools available.");
    }
    let mut out = String::new();
    let mut i: usize = 0;
    assert(tools@.subrange(0, tools@.len() as int) =~= tools@);
    while i < tools.len()
        invariant
            i <= tools@.len(),
            out@ + tools_lines(tools@.subrange(i as int, tools@.len() as int)) == tools_lines(
                tools@,
            ),
        decreases tools@.len() - i,
    {
        let ghost rest = tools@.subrange(i as int, tools@.len() as int);
        let ghost o0 = out@;
        proof {
            assert(rest.first() == tools@[i as int]);
            assert(rest.drop_first() =~= tools@.subrange(i + 1 as int, tools@.len() as int));
        }
        out.append("- ");
        out.append(tools[i].0.as_str());
        out.append(": ");
        out.append(tools[i].1.as_str());
        out.append("\n");
        proof {
            assert(out@ =~= o0 + ("- "@ + tools@[i as int].0@ + ": "@ + tools@[i as int].1@
                + "\n"@));
            assert(o0 + ("- "@ + tools@[i as int].0@ + ": "@ + tools@[i as int].1@ + "\n"@
                + tools_lines(rest.drop_first())) =~= (o0 + ("- "@ + tools@[i as int].0@ + ": "@
                + tools@[i as int].1@ + "\n"@)) + tools_lines(rest.drop_first()));
        }
        i = i + 1;
    }
    assert(tools_lines(tools@.subrange(tools@.len() as int, tools@.len() as int)) =~= Seq::empty());
    assert(out@ + Seq::<char>::empty() =~= out@);
    out
}

/// The text a chat turn shows for a dispatch outcome: an executed step's
/// `content` string, or the failure or denial spelled out.
pub fn extract_content(result: &ExecutorResult) -> (r: String)
    ensures
        result matches ExecutorResult::Executed { output, .. } ==> r@ == (match output@.get(
            "content"@,
        ) {
            Option::Some(JVal::Str(s)) => s,
            _ => Seq::empty(),
        }),
        result matches ExecutorResult::Error { error } ==> r@ == "Error: "@ + error@,
        result matches ExecutorResult::Denied { denial_reason } ==> r@ == "Denied: "@
            + denial_reason.policy@,
{
    match result {
        ExecutorResult::Executed { output, .. } => {
            match output.get("content") {
                Option::Some(v) => match v {
                    crate::json::Json::Str(s) => crate::json::copy_string(s),
                    _ => String::new(),
                },
                Option::None => String::new(),
            }
        },
        ExecutorResult::Error { error } => {
            let mut m = String::from_str("Error: ");
            m.append(error.as_str());
            m
        },
        ExecutorResult::Denied { denial_reason } => {
            let mut m = String::from_str("Denied: ");
            m.append(denial_reason.policy.as_str());
            m
        },
    }
}

} // verus!
