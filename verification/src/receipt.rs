//! Audit receipts.
//!
//! Every run produces exactly one [`WorkflowReceipt`]: the per-step
//! outcomes in order, the merged inputs, the final outputs, and debug
//! metadata including a hash of the active configuration.  Receipts are
//! built whole in memory; [`receipt_json`] gives the exact document the
//! caller persists.

use vstd::prelude::*;
use vstd::string::*;

use crate::executor::{DenialReason, ExecutorResult};
use crate::json::{JVal, Json};

verus! {

/// The normalized record of one step's outcome.
pub struct StepReceipt {
    pub step_id: String,
    pub executor: String,
    pub status: String,
    pub request: Json,
    pub response: Json,
    pub denial_reason: Option<DenialReason>,
    pub error: Option<String>,
    pub duration_ms: u64,
}

/// Metadata recorded alongside the step outcomes.
pub struct DebugInfo {
    pub config_snapshot: String,
    pub executor_versions: Vec<(String, String)>,
    pub total_duration_ms: u64,
}

/// The audit-of-record for one run.
pub struct WorkflowReceipt {
    pub run_id: String,
    pub workflow_id: String,
    pub node_id: String,
    pub started_at: String,
    pub completed_at: String,
    pub status: String,
    pub mode: String,
    pub steps: Vec<StepReceipt>,
    pub inputs: Json,
    pub outputs: Json,
    pub debug: DebugInfo,
}

impl StepReceipt {
    /// Projects one dispatch outcome into its receipt: each variant maps to
    /// its status string, only an executed step carries a response and a
    /// duration, only a denied step carries a denial, only a failed step
    /// carries an error.
    pub fn from_result(step_id: &str, executor: &str, request: Json, result: ExecutorResult) -> (r:
        StepReceipt)
        ensures
            r.step_id@ == step_id@,
            r.executor@ == executor@,
            r.request == request,
            result matches ExecutorResult::Executed { output, duration_ms } ==> (r.status@
                == "executed"@ && r.response == output && r.denial_reason is None && r.error is None
                && r.duration_ms == duration_ms),
            result matches ExecutorResult::Denied { denial_reason } ==> (r.status@ == "denied"@
                && r.response@ == JVal::Null && (r.denial_reason matches Option::Some(d) && d
                == denial_reason) && r.error is None && r.duration_ms == 0),
            result matches ExecutorResult::Error { error } ==> (r.status@ == "error"@ && r.response@
                == JVal::Null && r.denial_reason is None && (r.error matches Option::Some(e) && e
                == error) && r.duration_ms == 0),
    {
        match result {
            ExecutorResult::Executed { output, duration_ms } => StepReceipt {
                step_id: String::from_str(step_id),
                executor: String::from_str(executor),
                status: String::from_str("executed"),
                request,
                response: output,
                denial_reason: Option::None,
                error: Option::None,
                duration_ms,
            },
            ExecutorResult::Denied { denial_reason } => StepReceipt {
                step_id: String::from_str(step_id),
                executor: String::from_str(executor),
                status: String::from_str("denied"),
                request,
                response: Json::Null,
                denial_reason: Option::Some(denial_reason),
                error: Option::None,
                duration_ms: 0,
            },
            ExecutorResult::Error { error } => StepReceipt {
                step_id: String::from_str(step_id),
                executor: String::from_str(executor),
                status: String::from_str("error"),
                request,
                response: Json::Null,
                denial_reason: Option::None,
                error: Option::Some(error),
                duration_ms: 0,
            },
        }
    }
}

/// Every step either executed or was skipped.
pub open spec fn all_steps_ok(steps: Seq<StepReceipt>) -> bool {
    forall|i: int|
        0 <= i < steps.len() ==> ((#[trigger] steps[i]).status@ == "executed"@ || steps[i].status@
            == "skipped"@)
}

/// Some step executed.
pub open spec fn any_step_executed(steps: Seq<StepReceipt>) -> bool {
    exists|i: int| 0 <= i < steps.len() && (#[trigger] steps[i]).status@ == "executed"@
}

/// The overall status of a run: `success` when every step executed or was
/// skipped, `failed` when nothing executed, `partial` in between.
pub open spec fn status_of(steps: Seq<StepReceipt>) -> Seq<char> {
    if all_steps_ok(steps) {
        "success"@
    } else if any_step_executed(steps) {
        "partial"@
    } else {
        "failed"@
    }
}

/// The status literals are pairwise distinct.
pub proof fn lemma_status_lits()
    ensures
        "success"@ != "partial"@,
        "success"@ != "failed"@,
        "partial"@ != "failed"@,
        "executed"@ != "skipped"@,
        "executed"@ != "denied"@,
        "executed"@ != "error"@,
        "denied"@ != "skipped"@,
        "denied"@ != "error"@,
        "error"@ != "skipped"@,
{
    reveal_strlit("success");
    reveal_strlit("partial");
    reveal_strlit("failed");
    reveal_strlit("executed");
    reveal_strlit("skipped");
    reveal_strlit("denied");
    reveal_strlit("error");
    assert("success"@.len() == 7);
    assert("partial"@.len() == 7);
    assert("failed"@.len() == 6);
    assert("executed"@.len() == 8);
    assert("skipped"@.len() == 7);
    assert("denied"@.len() == 6);
    assert("error"@.len() == 5);
    assert("success"@[0] == 's' && "partial"@[0] == 'p');
    assert("skipped"@[0] == 's' && "partial"@[0] == 'p');
    assert("denied"@[0] == 'd' && "failed"@[0] == 'f');
}

/// How the overall status classifies a run: it is `success` exactly when
/// every step executed or was skipped; among runs with any other step, it
/// is `failed` exactly when no step executed, and `partial` exactly when
/// one did.  (A run whose steps were all skipped counts as `success`, not
/// `failed`, though nothing executed.)
pub proof fn lemma_status_classification(steps: Seq<StepReceipt>)
    ensures
        status_of(steps) == "success"@ <==> all_steps_ok(steps),
        !all_steps_ok(steps) ==> (status_of(steps) == "failed"@ <==> !any_step_executed(steps)),
        status_of(steps) == "partial"@ <==> (!all_steps_ok(steps) && any_step_executed(steps)),
{
    lemma_status_lits();
}

/// The overall status, computed.
pub fn overall_status(steps: &Vec<StepReceipt>) -> (r: String)
    ensures
        r@ == status_of(steps@),
{
    proof {
        lemma_status_lits();
    }
    let mut all_ok = true;
    let mut any_exec = false;
    let mut i: usize = 0;
    while i < steps.len()
        invariant
            i <= steps.len(),
            all_ok == (forall|j: int|
                0 <= j < i ==> ((#[trigger] steps@[j]).status@ == "executed"@ || steps@[j].status@
                    == "skipped"@)),
            any_exec == (exists|j: int|
                0 <= j < i && (#[trigger] steps@[j]).status@ == "executed"@),
        decreases steps.len() - i,
    {
        let executed = crate::text::str_eq(steps[i].status.as_str(), "executed");
        let skipped = crate::text::str_eq(steps[i].status.as_str(), "skipped");
        all_ok = all_ok && (executed || skipped);
        any_exec = any_exec || executed;
        i = i + 1;
    }
    if all_ok {
        String::from_str("success")
    } else if any_exec {
        String::from_str("partial")
    } else {
        String::from_str("failed")
    }
}

/// The hexadecimal MD5 digest of a text, a function of its characters
/// alone.
pub uninterp spec fn md5_hex_of(s: Seq<char>) -> Seq<char>;

/// Relies on `md5::compute` over the text's UTF-8 bytes, rendered through
/// the digest's `LowerHex` form: thirty-two lowercase hex digits, a
/// function of the text alone.
#[verifier::external_body]
pub(crate) fn md5_hex(data: &str) -> (r: String)
    ensures
        r@ == md5_hex_of(data@),
        r@.len() == 32,
{
    format!("{:x}", md5::compute(data.as_bytes()))
}

/// The configuration hash recorded in a receipt: the digest of the
/// configuration's JSON rendering.
pub fn config_snapshot_hash(config: &crate::config::NodeConfig) -> (r: String)
    ensures
        r@ == md5_hex_of(crate::json_text::jtext(crate::config_json::config_jval(config))),
        r@.len() == 32,
{
    let j = crate::config_json::config_to_json(config);
    let text = crate::json_text::to_text(&j);
    md5_hex(text.as_str())
}

/// A `u64` as a JSON integer; a value beyond the signed range saturates.
pub open spec fn u64_jval(n: u64) -> JVal {
    if n <= 0x7fff_ffff_ffff_ffff {
        JVal::Int(n as int)
    } else {
        JVal::Int(0x7fff_ffff_ffff_ffff)
    }
}

fn u64_json(n: u64) -> (r: Json)
    ensures
        r@ == u64_jval(n),
{
    if n <= 0x7fff_ffff_ffff_ffffu64 {
        Json::Int(n as i64)
    } else {
        Json::Int(i64::MAX)
    }
}

/// The JSON document of a denial.
pub open spec fn denial_jval(d: &DenialReason) -> JVal {
    JVal::Obj(
        seq![
            ("rule"@, JVal::Str(d.rule@)),
            ("attempted"@, JVal::Str(d.attempted@)),
            ("policy"@, JVal::Str(d.policy@)),
        ],
    )
}

/// The JSON document of one step receipt.
pub open spec fn step_jval(s: &StepReceipt) -> JVal {
    JVal::Obj(
        seq![
            ("step_id"@, JVal::Str(s.step_id@)),
            ("executor"@, JVal::Str(s.executor@)),
            ("status"@, JVal::Str(s.status@)),
            ("request"@, s.request@),
            ("response"@, s.response@),
            ("denial_reason"@, match s.denial_reason {
                Option::Some(d) => denial_jval(&d),
                Option::None => JVal::Null,
            }),
            ("error"@, match s.error {
                Option::Some(e) => JVal::Str(e@),
                Option::None => JVal::Null,
            }),
            ("duration_ms"@, u64_jval(s.duration_ms)),
        ],
    )
}

/// The JSON documents of the steps, in order.
pub open spec fn steps_jval(steps: Seq<StepReceipt>) -> Seq<JVal> {
    Seq::new(steps.len(), |i: int| step_jval(&steps[i]))
}

/// The JSON document of the version map.
pub open spec fn versions_jval(vs: Seq<(String, String)>) -> JVal {
    JVal::Obj(Seq::new(vs.len(), |i: int| (vs[i].0@, JVal::Str(vs[i].1@))))
}

/// The JSON document of a whole receipt, as it is persisted.
pub open spec fn receipt_jval(r: &WorkflowReceipt) -> JVal {
    JVal::Obj(
        seq![
            ("run_id"@, JVal::Str(r.run_id@)),
            ("workflow_id"@, JVal::Str(r.workflow_id@)),
            ("node_id"@, JVal::Str(r.node_id@)),
            ("started_at"@, JVal::Str(r.started_at@)),
            ("completed_at"@, JVal::Str(r.completed_at@)),
            ("status"@, JVal::Str(r.status@)),
            ("mode"@, JVal::Str(r.mode@)),
            ("steps"@, JVal::Arr(steps_jval(r.steps@))),
            ("inputs"@, r.inputs@),
            ("outputs"@, r.outputs@),
            ("debug"@, JVal::Obj(
                seq![
                    ("config_snapshot"@, JVal::Str(r.debug.config_snapshot@)),
                    ("executor_versions"@, versions_jval(r.debug.executor_versions@)),
                    ("total_duration_ms"@, u64_jval(r.debug.total_duration_ms)),
                ],
            )),
        ],
    )
}

fn step_to_json(s: &StepReceipt) -> (r: Json)
    ensures
        r@ == step_jval(s),
{
    let mut b = crate::json::ObjBuilder::new();
    b.add("step_id", Json::Str(crate::json::copy_string(&s.step_id)));
    b.add("executor", Json::Str(crate::json::copy_string(&s.executor)));
    b.add("status", Json::Str(crate::json::copy_string(&s.status)));
    b.add("request", s.request.deep_copy());
    b.add("response", s.response.deep_copy());
    let denial: Json = match &s.denial_reason {
        Option::Some(d) => {
            let mut db = crate::json::ObjBuilder::new();
            db.add("rule", Json::Str(crate::json::copy_string(&d.rule)));
            db.add("attempted", Json::Str(crate::json::copy_string(&d.attempted)));
            db.add("policy", Json::Str(crate::json::copy_string(&d.policy)));
            let dj = db.build();
            assert(dj@->Obj_0 =~= denial_jval(d)->Obj_0);
            assert(dj@ == denial_jval(d));
            dj
        },
        Option::None => Json::Null,
    };
    b.add("denial_reason", denial);
    let err: Json = match &s.error {
        Option::Some(e) => Json::Str(crate::json::copy_string(e)),
        Option::None => Json::Null,
    };
    b.add("error", err);
    b.add("duration_ms", u64_json(s.duration_ms));
    let r = b.build();
    assert(r@->Obj_0 =~= step_jval(s)->Obj_0);
    assert(r@ == step_jval(s));
    r
}

/// The persisted JSON document of a receipt.
pub fn receipt_json(r: &WorkflowReceipt) -> (j: Json)
    ensures
        j@ == receipt_jval(r),
{
    let mut steps: Vec<Json> = Vec::new();
    let mut i: usize = 0;
    while i < r.steps.len()
        invariant
            i <= r.steps.len(),
            steps@.len() == i,
            forall|k: int| 0 <= k < i ==> (#[trigger] steps@[k])@ == step_jval(&r.steps@[k]),
        decreases r.steps.len() - i,
    {
        steps.push(step_to_json(&r.steps[i]));
        i = i + 1;
    }
    let steps_json = crate::json::json_arr(steps);
    assert(steps_json@->Arr_0 =~= steps_jval(r.steps@));
    let mut versions: Vec<(String, Json)> = Vec::new();
    let mut i: usize = 0;
    while i < r.debug.executor_versions.len()
        invariant
            i <= r.debug.executor_versions.len(),
            versions@.len() == i,
            forall|k: int| 0 <= k < i ==> (#[trigger] versions@[k]).0@
                == r.debug.executor_versions@[k].0@ && versions@[k].1@ == JVal::Str(
                r.debug.executor_versions@[k].1@,
            ),
        decreases r.debug.executor_versions.len() - i,
    {
        let pair = &r.debug.executor_versions[i];
        versions.push(
            (crate::json::copy_string(&pair.0), Json::Str(crate::json::copy_string(&pair.1))),
        );
        i = i + 1;
    }
    let ghost vv = versions@;
    let versions_json = Json::Obj(versions);
    assert(versions_json@->Obj_0 =~= versions_jval(r.debug.executor_versions@)->Obj_0);
    assert(versions_json@ == versions_jval(r.debug.executor_versions@));
    let mut db = crate::json::ObjBuilder::new();
    db.add("config_snapshot", Json::Str(crate::json::copy_string(&r.debug.config_snapshot)));
    db.add("executor_versions", versions_json);
    db.add("total_duration_ms", u64_json(r.debug.total_duration_ms));
    let debug_json = db.build();
    assert(debug_json@->Obj_0 =~= seq![
        ("config_snapshot"@, JVal::Str(r.debug.config_snapshot@)),
        ("executor_versions"@, versions_jval(r.debug.executor_versions@)),
        ("total_duration_ms"@, u64_jval(r.debug.total_duration_ms)),
    ]);
    assert(debug_json@ == JVal::Obj(seq![
        ("config_snapshot"@, JVal::Str(r.debug.config_snapshot@)),
        ("executor_versions"@, versions_jval(r.debug.executor_versions@)),
        ("total_duration_ms"@, u64_jval(r.debug.total_duration_ms)),
    ]));
    let mut b = crate::json::ObjBuilder::new();
    b.add("run_id", Json::Str(crate::json::copy_string(&r.run_id)));
    b.add("workflow_id", Json::Str(crate::json::copy_string(&r.workflow_id)));
    b.add("node_id", Json::Str(crate::json::copy_string(&r.node_id)));
    b.add("started_at", Json::Str(crate::json::copy_string(&r.started_at)));
    b.add("completed_at", Json::Str(crate::json::copy_string(&r.completed_at)));
    b.add("status", Json::Str(crate::json::copy_string(&r.status)));
    b.add("mode", Json::Str(crate::json::copy_string(&r.mode)));
    b.add("steps", steps_json);
    b.add("inputs", r.inputs.deep_copy());
    b.add("outputs", r.outputs.deep_copy());
    b.add("debug", debug_json);
    let j = b.build();
    assert(j@->Obj_0 =~= receipt_jval(r)->Obj_0);
    assert(j@ == receipt_jval(r));
    j
}

/// The text a receipt is persisted as.
pub fn receipt_text(r: &WorkflowReceipt) -> (t: String)
    ensures
        t@ == crate::json_text::jtext(receipt_jval(r)),
{
    let j = receipt_json(r);
    crate::json_text::to_text(&j)
}

} // verus!
