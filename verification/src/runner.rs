//! The workflow runner.
//!
//! A run takes a [`WorkflowSpec`] through its steps in order.  Each step
//! is planned purely — condition, variable resolution, policy gate,
//! executor lookup — and only a step the plan clears is handed to the
//! driver for dispatch; the driver feeds the raw result back and the run
//! accumulates one receipt per step.  Finishing a run consumes it and
//! builds the single [`WorkflowReceipt`] the caller persists.

use vstd::prelude::*;
use vstd::string::*;

use crate::config::NodeConfig;
use crate::context::Context;
use crate::executor::{DenialReason, ExecutorKind, ExecutorResult};
use crate::json::{fields_lookup, JVal, Json};
use crate::receipt::{status_of, DebugInfo, StepReceipt, WorkflowReceipt};

verus! {

/// One declared workflow input: a type tag, whether it is required, and an
/// optional default value.
pub struct InputDef {
    pub input_type: String,
    pub required: bool,
    pub default: Option<Json>,
}

/// One declared step.
pub struct Step {
    pub id: String,
    pub executor: String,
    pub input: Json,
    pub uses: Vec<(String, String)>,
    pub foreach: Option<String>,
    pub batch_size: Option<usize>,
    pub checkpoint: bool,
    pub timeout: Option<u64>,
    pub condition: Option<String>,
}

/// A loaded workflow specification.
pub struct WorkflowSpec {
    pub version: String,
    pub id: String,
    pub name: String,
    pub description: Option<String>,
    pub inputs: Vec<(String, InputDef)>,
    pub steps: Vec<Step>,
    pub outputs: Vec<(String, String)>,
}

/// Whether some input with a default is declared under this name.
pub open spec fn has_default_named(inputs: Seq<(String, InputDef)>, name: Seq<char>) -> bool {
    exists|i: int|
        0 <= i < inputs.len() && (#[trigger] inputs[i]).0@ == name && inputs[i].1.default is Some
}

/// The seeded part of the merged inputs: one field per declared input with
/// a default, in declaration order, holding the caller's value when the
/// caller supplied one and the default otherwise.
pub open spec fn default_fields(inputs: Seq<(String, InputDef)>, provided: JVal) -> Seq<
    (Seq<char>, JVal),
>
    decreases inputs.len(),
{
    if inputs.len() == 0 {
        Seq::empty()
    } else {
        let rest = default_fields(inputs.drop_first(), provided);
        match inputs.first().1.default {
            Option::Some(d) => seq![
                (inputs.first().0@, match provided.get(inputs.first().0@) {
                    Option::Some(v) => v,
                    Option::None => d@,
                }),
            ] + rest,
            Option::None => rest,
        }
    }
}

/// The caller's fields that no default is declared for, in the caller's
/// order.
pub open spec fn extra_fields(
    pfs: Seq<(Seq<char>, JVal)>,
    inputs: Seq<(String, InputDef)>,
) -> Seq<(Seq<char>, JVal)>
    decreases pfs.len(),
{
    if pfs.len() == 0 {
        Seq::empty()
    } else if has_default_named(inputs, pfs.first().0) {
        extra_fields(pfs.drop_first(), inputs)
    } else {
        seq![pfs.first()] + extra_fields(pfs.drop_first(), inputs)
    }
}

/// The caller's fields, when the caller supplied an object.
pub open spec fn provided_fields(provided: JVal) -> Seq<(Seq<char>, JVal)> {
    match provided {
        JVal::Obj(fs) => fs,
        _ => Seq::empty(),
    }
}

/// The merged inputs of a run: every declared default seeded then
/// overridden by the caller, and every undeclared caller key passed
/// through.
pub open spec fn merged_inputs_of(spec: &WorkflowSpec, provided: JVal) -> JVal {
    JVal::Obj(
        default_fields(spec.inputs@, provided) + extra_fields(
            provided_fields(provided),
            spec.inputs@,
        ),
    )
}

/// Merges the caller-supplied inputs with the spec's defaults: defaults
/// seed the object, the caller's values win, and caller keys the spec
/// does not declare pass through unchanged.
pub fn merge_inputs(spec: &WorkflowSpec, provided: &Json) -> (r: Json)
    ensures
        r@ == merged_inputs_of(spec, provided@),
{
    let ghost dspec = default_fields(spec.inputs@, provided@);
    let mut fields: Vec<(String, Json)> = Vec::new();
    let mut i: usize = 0;
    assert(spec.inputs@.subrange(0, spec.inputs@.len() as int) =~= spec.inputs@);
    assert(crate::json::jfields_of(fields@) + dspec =~= dspec);
    while i < spec.inputs.len()
        invariant
            i <= spec.inputs@.len(),
            dspec == default_fields(spec.inputs@, provided@),
            crate::json::jfields_of(fields@) + default_fields(
                spec.inputs@.subrange(i as int, spec.inputs@.len() as int),
                provided@,
            ) == dspec,
        decreases spec.inputs@.len() - i,
    {
        let ghost rest = spec.inputs@.subrange(i as int, spec.inputs@.len() as int);
        let ghost f0 = crate::json::jfields_of(fields@);
        proof {
            assert(rest.first() == spec.inputs@[i as int]);
            assert(rest.drop_first() =~= spec.inputs@.subrange(
                i + 1 as int,
                spec.inputs@.len() as int,
            ));
        }
        let pair = &spec.inputs[i];
        match &pair.1.default {
            Option::Some(d) => {
                let value: Json = match provided.get(pair.0.as_str()) {
                    Option::Some(v) => v.deep_copy(),
                    Option::None => d.deep_copy(),
                };
                let ghost vv = value@;
                fields.push((crate::json::copy_string(&pair.0), value));
                proof {
                    assert(crate::json::jfields_of(fields@) =~= f0.push(
                        (spec.inputs@[i as int].0@, vv),
                    ));
                    assert(f0.push((spec.inputs@[i as int].0@, vv)) + default_fields(
                        rest.drop_first(),
                        provided@,
                    ) =~= f0 + (seq![(spec.inputs@[i as int].0@, vv)] + default_fields(
                        rest.drop_first(),
                        provided@,
                    )));
                }
            },
            Option::None => {},
        }
        i = i + 1;
    }
    proof {
        assert(default_fields(
            spec.inputs@.subrange(spec.inputs@.len() as int, spec.inputs@.len() as int),
            provided@,
        ) =~= Seq::empty());
        assert(crate::json::jfields_of(fields@) + Seq::<(Seq<char>, JVal)>::empty()
            =~= crate::json::jfields_of(fields@));
    }
    match provided {
        Json::Obj(pfields) => {
            let ghost pfs = provided@->Obj_0;
            let ghost espec = extra_fields(pfs, spec.inputs@);
            let mut j: usize = 0;
            assert(pfs.subrange(0, pfs.len() as int) =~= pfs);
            while j < pfields.len()
                invariant
                    j <= pfields@.len(),
                    pfs == provided@->Obj_0,
                    provided@ is Obj,
                    pfs.len() == pfields@.len(),
                    forall|k: int| 0 <= k < pfields@.len() ==> (#[trigger] pfs[k]) == (
                    pfields@[k].0@,
                    pfields@[k].1@,
                    ),
                    crate::json::jfields_of(fields@) + extra_fields(
                        pfs.subrange(j as int, pfs.len() as int),
                        spec.inputs@,
                    ) == dspec + extra_fields(pfs, spec.inputs@),
                decreases pfields@.len() - j,
            {
                let ghost rest = pfs.subrange(j as int, pfs.len() as int);
                let ghost f0 = crate::json::jfields_of(fields@);
                proof {
                    assert(rest.first() == pfs[j as int]);
                    assert(rest.drop_first() =~= pfs.subrange(j + 1 as int, pfs.len() as int));
                }
                let pair = &pfields[j];
                if !input_has_default(spec, pair.0.as_str()) {
                    let ghost vv = pair.1@;
                    fields.push((crate::json::copy_string(&pair.0), pair.1.deep_copy()));
                    proof {
                        assert(crate::json::jfields_of(fields@) =~= f0.push(
                            (pfs[j as int].0, pfs[j as int].1),
                        ));
                        assert(f0.push((pfs[j as int].0, pfs[j as int].1)) + extra_fields(
                            rest.drop_first(),
                            spec.inputs@,
                        ) =~= f0 + (seq![pfs[j as int]] + extra_fields(
                            rest.drop_first(),
                            spec.inputs@,
                        )));
                    }
                }
                j = j + 1;
            }
            proof {
                assert(extra_fields(pfs.subrange(pfs.len() as int, pfs.len() as int), spec.inputs@)
                    =~= Seq::empty());
                assert(crate::json::jfields_of(fields@) + Seq::<(Seq<char>, JVal)>::empty()
                    =~= crate::json::jfields_of(fields@));
            }
        },
        _ => {
            assert(extra_fields(provided_fields(provided@), spec.inputs@) =~= Seq::empty());
            assert(crate::json::jfields_of(fields@) + Seq::<(Seq<char>, JVal)>::empty()
                =~= crate::json::jfields_of(fields@));
        },
    }
    let ghost m = crate::json::jfields_of(fields@);
    let r = Json::Obj(fields);
    assert(r@->Obj_0 =~= m);
    assert(r@ == JVal::Obj(m));
    r
}

/// No two declared inputs with defaults share a name, as a specification
/// loaded from a mapping guarantees.
pub open spec fn unique_default_names(inputs: Seq<(String, InputDef)>) -> bool {
    forall|i: int, j: int|
        0 <= i < j < inputs.len() && (#[trigger] inputs[i]).1.default is Some && (
        #[trigger] inputs[j]).1.default is Some ==> inputs[i].0@ != inputs[j].0@
}

/// Looking a key up in a concatenation searches the left part first.
pub proof fn lemma_lookup_append(a: Seq<(Seq<char>, JVal)>, b: Seq<(Seq<char>, JVal)>, k: Seq<char>)
    ensures
        fields_lookup(a + b, k) == (match fields_lookup(a, k) {
            Option::Some(v) => Option::Some(v),
            Option::None => fields_lookup(b, k),
        }),
    decreases a.len(),
{
    if a.len() == 0 {
        assert(a + b =~= b);
    } else {
        lemma_lookup_append(a.drop_first(), b, k);
        assert((a + b).drop_first() =~= a.drop_first() + b);
    }
}

/// Every seeded field is named by an input with a default.
proof fn lemma_default_fields_named(inputs: Seq<(String, InputDef)>, provided: JVal)
    ensures
        forall|i: int| 0 <= i < default_fields(inputs, provided).len() ==> has_default_named(
            inputs,
            (#[trigger] default_fields(inputs, provided)[i]).0,
        ),
    decreases inputs.len(),
{
    if inputs.len() > 0 {
        lemma_default_fields_named(inputs.drop_first(), provided);
        let d = default_fields(inputs, provided);
        let rest = default_fields(inputs.drop_first(), provided);
        assert forall|i: int| 0 <= i < d.len() implies has_default_named(
            inputs,
            (#[trigger] d[i]).0,
        ) by {
            match inputs.first().1.default {
                Option::Some(_) => {
                    if i == 0 {
                        assert(inputs[0].0@ == d[0].0 && inputs[0].1.default is Some);
                    } else {
                        assert(d[i] == rest[i - 1]);
                        let w = choose|w: int|
                            0 <= w < inputs.drop_first().len() && (#[trigger] inputs.drop_first()[w]).0@
                                == rest[i - 1].0 && inputs.drop_first()[w].1.default is Some;
                        assert(inputs[w + 1].0@ == d[i].0 && inputs[w + 1].1.default is Some);
                    }
                },
                Option::None => {
                    assert(d[i] == rest[i]);
                    let w = choose|w: int|
                        0 <= w < inputs.drop_first().len() && (#[trigger] inputs.drop_first()[w]).0@
                            == rest[i].0 && inputs.drop_first()[w].1.default is Some;
                    assert(inputs[w + 1].0@ == d[i].0 && inputs[w + 1].1.default is Some);
                },
            }
        }
    }
}

/// Filtering drops every field named by a default.
proof fn lemma_extra_of_defaults(
    d: Seq<(Seq<char>, JVal)>,
    inputs: Seq<(String, InputDef)>,
)
    requires
        forall|i: int| 0 <= i < d.len() ==> has_default_named(inputs, (#[trigger] d[i]).0),
    ensures
        extra_fields(d, inputs) =~= Seq::empty(),
    decreases d.len(),
{
    if d.len() > 0 {
        assert(d[0].0 == d.first().0);
        lemma_extra_of_defaults(d.drop_first(), inputs);
    }
}

/// Filtering is idempotent.
proof fn lemma_extra_idempotent(pfs: Seq<(Seq<char>, JVal)>, inputs: Seq<(String, InputDef)>)
    ensures
        extra_fields(extra_fields(pfs, inputs), inputs) =~= extra_fields(pfs, inputs),
    decreases pfs.len(),
{
    if pfs.len() > 0 {
        lemma_extra_idempotent(pfs.drop_first(), inputs);
        if !has_default_named(inputs, pfs.first().0) {
            let e = extra_fields(pfs, inputs);
            assert(e == seq![pfs.first()] + extra_fields(pfs.drop_first(), inputs));
            assert(e.first() == pfs.first());
            assert(e.drop_first() =~= extra_fields(pfs.drop_first(), inputs));
        }
    }
}

/// Filtering distributes over concatenation.
proof fn lemma_extra_append(
    a: Seq<(Seq<char>, JVal)>,
    b: Seq<(Seq<char>, JVal)>,
    inputs: Seq<(String, InputDef)>,
)
    ensures
        extra_fields(a + b, inputs) =~= extra_fields(a, inputs) + extra_fields(b, inputs),
    decreases a.len(),
{
    if a.len() == 0 {
        assert(a + b =~= b);
        assert(extra_fields(a, inputs) + extra_fields(b, inputs) =~= extra_fields(b, inputs));
    } else {
        lemma_extra_append(a.drop_first(), b, inputs);
        assert((a + b).first() == a.first());
        assert((a + b).drop_first() =~= a.drop_first() + b);
        if !has_default_named(inputs, a.first().0) {
            assert(seq![a.first()] + (extra_fields(a.drop_first(), inputs) + extra_fields(
                b,
                inputs,
            )) =~= (seq![a.first()] + extra_fields(a.drop_first(), inputs)) + extra_fields(
                b,
                inputs,
            ));
        }
    }
}

/// Re-seeding a merged object reproduces its seeded part: each default
/// name looks up the value the seed already holds.
proof fn lemma_default_refeed(
    suffix: Seq<(String, InputDef)>,
    a: Seq<(Seq<char>, JVal)>,
    b: Seq<(Seq<char>, JVal)>,
    provided: JVal,
)
    requires
        unique_default_names(suffix),
        forall|k: int| 0 <= k < suffix.len() && (#[trigger] suffix[k]).1.default is Some
            ==> fields_lookup(a, suffix[k].0@) is None,
    ensures
        default_fields(
            suffix,
            JVal::Obj(a + default_fields(suffix, provided) + b),
        ) =~= default_fields(suffix, provided),
    decreases suffix.len(),
{
    if suffix.len() > 0 {
        let m = JVal::Obj(a + default_fields(suffix, provided) + b);
        let rest = suffix.drop_first();
        match suffix.first().1.default {
            Option::Some(d) => {
                let n = suffix.first().0@;
                let v = match provided.get(n) {
                    Option::Some(v) => v,
                    Option::None => d@,
                };
                assert(default_fields(suffix, provided) == seq![(n, v)] + default_fields(
                    rest,
                    provided,
                ));
                assert(m.get(n) == Option::Some(v)) by {
                    lemma_lookup_append(
                        a,
                        default_fields(suffix, provided) + b,
                        n,
                    );
                    assert(a + default_fields(suffix, provided) + b =~= a + (default_fields(
                        suffix,
                        provided,
                    ) + b));
                    assert((seq![(n, v)] + default_fields(rest, provided)) + b =~= seq![(n, v)]
                        + (default_fields(rest, provided) + b));
                    assert(fields_lookup(seq![(n, v)] + (default_fields(rest, provided) + b), n)
                        == Option::Some(v));
                }
                let a2 = a + seq![(n, v)];
                assert forall|k: int|
                    0 <= k < rest.len() && (#[trigger] rest[k]).1.default is Some implies
                    fields_lookup(a2, rest[k].0@) is None by {
                    assert(rest[k] == suffix[k + 1]);
                    assert(suffix[k + 1].1.default is Some);
                    assert(suffix[0].1.default is Some);
                    assert(rest[k].0@ != n);
                    lemma_lookup_append(a, seq![(n, v)], rest[k].0@);
                    assert(seq![(n, v)].drop_first() =~= Seq::<(Seq<char>, JVal)>::empty());
                    assert(fields_lookup(Seq::<(Seq<char>, JVal)>::empty(), rest[k].0@) is None);
                    assert(fields_lookup(seq![(n, v)], rest[k].0@) is None);
                };
                lemma_default_refeed(rest, a2, b, provided);
                assert(a2 + default_fields(rest, provided) + b =~= a + default_fields(
                    suffix,
                    provided,
                ) + b);
                assert(default_fields(suffix, m) == seq![
                    (n, match m.get(n) {
                        Option::Some(w) => w,
                        Option::None => d@,
                    }),
                ] + default_fields(rest, m));
            },
            Option::None => {
                assert forall|k: int|
                    0 <= k < rest.len() && (#[trigger] rest[k]).1.default is Some implies
                    fields_lookup(a, rest[k].0@) is None by {
                    assert(suffix[k + 1].1.default is Some);
                };
                lemma_default_refeed(rest, a, b, provided);
                assert(a + default_fields(rest, provided) + b =~= a + default_fields(
                    suffix,
                    provided,
                ) + b);
            },
        }
    }
}

/// Merging is idempotent: merging the spec with an already-merged object
/// gives that object back.
pub proof fn lemma_merge_idempotent(spec: &WorkflowSpec, provided: JVal)
    requires
        unique_default_names(spec.inputs@),
    ensures
        merged_inputs_of(spec, merged_inputs_of(spec, provided)) == merged_inputs_of(
            spec,
            provided,
        ),
{
    let d = default_fields(spec.inputs@, provided);
    let e = extra_fields(provided_fields(provided), spec.inputs@);
    let m = merged_inputs_of(spec, provided);
    assert(Seq::<(Seq<char>, JVal)>::empty() + d + e =~= d + e);
    lemma_default_refeed(spec.inputs@, Seq::empty(), e, provided);
    assert(default_fields(spec.inputs@, m) =~= d);
    lemma_extra_append(d, e, spec.inputs@);
    lemma_default_fields_named(spec.inputs@, provided);
    lemma_extra_of_defaults(d, spec.inputs@);
    lemma_extra_idempotent(provided_fields(provided), spec.inputs@);
    assert(extra_fields(d + e, spec.inputs@) =~= e);
    assert(provided_fields(m) == d + e);
    assert(merged_inputs_of(spec, m)->Obj_0 =~= d + e);
}

/// Whether the spec declares a default under this name.
fn input_has_default(spec: &WorkflowSpec, name: &str) -> (r: bool)
    ensures
        r == has_default_named(spec.inputs@, name@),
{
    let mut i: usize = 0;
    while i < spec.inputs.len()
        invariant
            i <= spec.inputs@.len(),
            forall|j: int| 0 <= j < i ==> !((#[trigger] spec.inputs@[j]).0@ == name@
                && spec.inputs@[j].1.default is Some),
        decreases spec.inputs@.len() - i,
    {
        let pair = &spec.inputs[i];
        if pair.1.default.is_some() && crate::text::str_eq(pair.0.as_str(), name) {
            return true;
        }
        i = i + 1;
    }
    false
}

/// What the runner decided for one step.
pub enum StepPlan {
    Skip,
    Fail { error: String, request: Json },
    Deny { denial_reason: DenialReason, request: Json },
    Dispatch { kind: ExecutorKind, request: Json },
}

/// A step whose condition path resolves to a falsy value (or does not
/// resolve) is skipped.
pub open spec fn condition_blocks(step: &Step, ctx: &Context) -> bool {
    match step.condition {
        Option::Some(c) => !crate::resolve::condition_holds(ctx, c@),
        Option::None => false,
    }
}

/// The step's input after substitution, when the substituted text parses.
pub open spec fn step_resolution(step: &Step, ctx: &Context) -> Option<JVal> {
    crate::json_parse::parse_doc(
        crate::resolve::resolved_text(step.input@, step.uses@, ctx),
    )
}

/// Plans one step: a blocked condition skips it; a substitution that does
/// not parse fails it; an executor off the allow-list is denied with the
/// `security.allowed_executors` rule, whatever its resolved input; an
/// unknown executor fails; anything else is dispatched.
pub fn plan_step(step: &Step, ctx: &Context, config: &NodeConfig) -> (r: StepPlan)
    ensures
        condition_blocks(step, ctx) ==> r is Skip,
        !condition_blocks(step, ctx) && step_resolution(step, ctx) is None ==> (r matches
            StepPlan::Fail { error, request } && error@ == "substituted step input is not valid JSON"@
            && request@ == JVal::Null),
        !condition_blocks(step, ctx) ==> (step_resolution(step, ctx) matches Option::Some(req)
            ==> !crate::executor::str_in_list(config.security.allowed_executors@, step.executor@)
            ==> (r matches StepPlan::Deny { denial_reason, request } && request@ == req
            && denial_reason.rule@ == "security.allowed_executors"@ && denial_reason.attempted@
            == step.executor@ && denial_reason.policy@ == "Executor '"@ + step.executor@
            + "' is not in allowed_executors list"@)),
        !condition_blocks(step, ctx) ==> (step_resolution(step, ctx) matches Option::Some(req)
            ==> crate::executor::str_in_list(config.security.allowed_executors@, step.executor@)
            ==> crate::executor::kind_of_id(step.executor@) is None ==> (r matches StepPlan::Fail {
            error,
            request,
        } && error@ == "Executor not found: "@ + step.executor@ && request@ == req)),
        !condition_blocks(step, ctx) ==> (step_resolution(step, ctx) matches Option::Some(req)
            ==> (crate::executor::kind_of_id(step.executor@) matches Option::Some(k)
            ==> crate::executor::str_in_list(config.security.allowed_executors@, step.executor@)
            ==> (r matches StepPlan::Dispatch { kind, request } && kind == k && request@ == req))),
{
    match &step.condition {
        Option::Some(c) => {
            if !crate::resolve::evaluate_condition(c.as_str(), ctx) {
                return StepPlan::Skip;
            }
        },
        Option::None => {},
    }
    let resolved: Json = match crate::resolve::resolve_variables(&step.input, &step.uses, ctx) {
        Result::Ok(v) => v,
        Result::Err(e) => {
            return StepPlan::Fail { error: e, request: Json::Null };
        },
    };
    if !crate::executor::executor_allowed(&config.security, step.executor.as_str()) {
        let policy = crate::executor::concat3(
            "Executor '",
            step.executor.as_str(),
            "' is not in allowed_executors list",
        );
        return StepPlan::Deny {
            denial_reason: DenialReason {
                rule: String::from_str("security.allowed_executors"),
                attempted: crate::json::copy_string(&step.executor),
                policy,
            },
            request: resolved,
        };
    }
    match lookup_kind(step.executor.as_str()) {
        Option::Some(kind) => StepPlan::Dispatch { kind, request: resolved },
        Option::None => {
            let error = crate::executor::concat3("Executor not found: ", step.executor.as_str(), "");
            proof {
                reveal_strlit("");
                assert(error@ =~= "Executor not found: "@ + step.executor@);
            }
            StepPlan::Fail { error, request: resolved }
        },
    }
}

/// The executor an identifier names.
pub fn lookup_kind(id: &str) -> (r: Option<ExecutorKind>)
    ensures
        r == crate::executor::kind_of_id(id@),
{
    if crate::text::str_eq(id, "http.request") {
        Option::Some(ExecutorKind::HttpRequest)
    } else if crate::text::str_eq(id, "llm.chat") {
        Option::Some(ExecutorKind::LlmChat)
    } else if crate::text::str_eq(id, "google.gmail") {
        Option::Some(ExecutorKind::GoogleGmail)
    } else if crate::text::str_eq(id, "harness.execute") {
        Option::Some(ExecutorKind::HarnessExecute)
    } else {
        Option::None
    }
}

/// The receipt a step that settles without dispatch must carry, as its
/// plan against the context dictates: skipped exactly when the condition
/// blocks, and the exact error or denial record for the other plans.
pub open spec fn settled_receipt_of(
    rc: StepReceipt,
    step: Step,
    ctx: &Context,
    config: &NodeConfig,
) -> bool {
    &&& rc.step_id@ == step.id@
    &&& rc.executor@ == step.executor@
    &&& if condition_blocks(&step, ctx) {
        &&& rc.status@ == "skipped"@
        &&& rc.request@ == JVal::Null
        &&& rc.response@ == JVal::Null
        &&& rc.denial_reason is None
        &&& rc.error is None
        &&& rc.duration_ms == 0
    } else {
        match step_resolution(&step, ctx) {
            Option::None => {
                &&& rc.status@ == "error"@
                &&& rc.request@ == JVal::Null
                &&& rc.response@ == JVal::Null
                &&& rc.denial_reason is None
                &&& (rc.error matches Option::Some(e) && e@
                    == "substituted step input is not valid JSON"@)
                &&& rc.duration_ms == 0
            },
            Option::Some(req) => {
                if !crate::executor::str_in_list(
                    config.security.allowed_executors@,
                    step.executor@,
                ) {
                    &&& rc.status@ == "denied"@
                    &&& rc.request@ == req
                    &&& rc.response@ == JVal::Null
                    &&& (rc.denial_reason matches Option::Some(d) && d.rule@
                        == "security.allowed_executors"@ && d.attempted@ == step.executor@
                        && d.policy@ == "Executor '"@ + step.executor@
                        + "' is not in allowed_executors list"@)
                    &&& rc.error is None
                    &&& rc.duration_ms == 0
                } else if crate::executor::kind_of_id(step.executor@) is None {
                    &&& rc.status@ == "error"@
                    &&& rc.request@ == req
                    &&& rc.response@ == JVal::Null
                    &&& rc.denial_reason is None
                    &&& (rc.error matches Option::Some(e) && e@ == "Executor not found: "@
                        + step.executor@)
                    &&& rc.duration_ms == 0
                } else {
                    false
                }
            },
        }
    }
}

/// What every settled receipt says about its step: it carries the step's
/// identifiers, one of the four statuses, and in particular only an
/// allow-listed executor can show `executed`, while a denial always names
/// the `security.allowed_executors` rule and the executor it stopped.
pub open spec fn receipt_tracks_step(rc: &StepReceipt, st: &Step, config: &NodeConfig) -> bool {
    &&& rc.step_id@ == st.id@
    &&& rc.executor@ == st.executor@
    &&& (rc.status@ == "executed"@ || rc.status@ == "denied"@ || rc.status@ == "error"@
        || rc.status@ == "skipped"@)
    &&& (rc.status@ == "executed"@ ==> crate::executor::str_in_list(
        config.security.allowed_executors@,
        st.executor@,
    ))
    &&& (rc.status@ == "denied"@ ==> rc.denial_reason is Some)
    &&& (rc.status@ == "skipped"@ ==> (st.condition is Some && rc.duration_ms == 0 && rc.request@
        == JVal::Null && rc.response@ == JVal::Null))
    &&& (rc.status@ == "denied"@ || rc.status@ == "error"@ ==> rc.duration_ms == 0)
}

/// One workflow run in flight.
pub struct WorkflowRun {
    pub spec: WorkflowSpec,
    pub config: NodeConfig,
    pub context: Context,
    pub merged: Json,
    pub receipts: Vec<StepReceipt>,
    pub next_step: usize,
    pub pending_request: Option<Json>,
    pub outputs: Json,
}

impl WorkflowRun {
    /// The run's standing invariant: one receipt per settled step, each
    /// tracking its step, and a pending dispatch only for a cleared,
    /// allow-listed step.
    pub open spec fn wf(&self) -> bool {
        &&& self.next_step <= self.spec.steps@.len()
        &&& self.receipts@.len() == self.next_step
        &&& (forall|i: int|
            0 <= i < self.receipts@.len() ==> receipt_tracks_step(
                &(#[trigger] self.receipts@[i]),
                &self.spec.steps@[i],
                &self.config,
            ))
        &&& (self.pending_request is Some ==> (self.next_step < self.spec.steps@.len()
            && crate::executor::str_in_list(
            self.config.security.allowed_executors@,
            self.spec.steps@[self.next_step as int].executor@,
        )))
    }

    /// Starts a run: merges the inputs and opens a fresh context over them
    /// and the given environment snapshot.
    pub fn new(spec: WorkflowSpec, config: NodeConfig, provided: &Json, env: Vec<(String, String)>)
        -> (r: WorkflowRun)
        ensures
            r.wf(),
            r.spec == spec,
            r.config == config,
            r.next_step == 0,
            r.receipts@.len() == 0,
            r.pending_request is None,
            r.merged@ == merged_inputs_of(&spec, provided@),
            r.outputs@ == JVal::Obj(Seq::empty()),
            r.context.inputs@ == merged_inputs_of(&spec, provided@),
            r.context.steps@.len() == 0,
            r.context.env@ == env@,
    {
        let merged = merge_inputs(&spec, provided);
        let context = Context::new(merged.deep_copy(), env);
        let b = crate::json::ObjBuilder::new();
        let outputs = b.build();
        WorkflowRun {
            spec,
            config,
            context,
            merged,
            receipts: Vec::new(),
            next_step: 0,
            pending_request: Option::None,
            outputs,
        }
    }

    /// Settles steps until one needs its executor: skipped, failed and
    /// denied steps get their receipts at once, and the first step the
    /// plan clears is returned with its resolved input for the driver to
    /// dispatch.  `None` means the run has settled every step.
    pub fn advance(&mut self) -> (r: Option<(ExecutorKind, Json)>)
        requires
            old(self).wf(),
            old(self).pending_request is None,
        ensures
            final(self).wf(),
            final(self).spec == old(self).spec,
            final(self).config == old(self).config,
            final(self).context == old(self).context,
            final(self).merged == old(self).merged,
            final(self).outputs == old(self).outputs,
            old(self).next_step <= final(self).next_step,
            forall|i: int| 0 <= i < old(self).next_step ==> final(self).receipts@[i] == old(self).receipts@[i],
            forall|i: int| old(self).next_step <= i < final(self).next_step
                ==> settled_receipt_of(
                #[trigger] final(self).receipts@[i],
                final(self).spec.steps@[i],
                &final(self).context,
                &final(self).config,
            ),
            r is Some <==> final(self).pending_request is Some,
            r matches Option::Some(p) ==> (final(self).pending_request matches Option::Some(q)
                && q@ == p.1@ && !condition_blocks(
                &final(self).spec.steps@[final(self).next_step as int],
                &final(self).context,
            ) && step_resolution(
                &final(self).spec.steps@[final(self).next_step as int],
                &final(self).context,
            ) == Option::Some(q@) && crate::executor::kind_of_id(
                final(self).spec.steps@[final(self).next_step as int].executor@,
            ) == Option::Some(p.0)),
            r is None ==> final(self).next_step == final(self).spec.steps@.len(),
        decreases old(self).spec.steps@.len() - old(self).next_step,
    {
        loop
            invariant
                self.wf(),
                self.pending_request is None,
                self.spec == old(self).spec,
                self.config == old(self).config,
                self.context == old(self).context,
                self.merged == old(self).merged,
                self.outputs == old(self).outputs,
                old(self).next_step <= self.next_step,
                forall|i: int| 0 <= i < old(self).next_step ==> self.receipts@[i] == old(
                    self,
                ).receipts@[i],
                forall|i: int| old(self).next_step <= i < self.next_step ==> settled_receipt_of(
                    #[trigger] self.receipts@[i],
                    self.spec.steps@[i],
                    &self.context,
                    &self.config,
                ),
            decreases self.spec.steps@.len() - self.next_step,
        {
            if self.next_step >= self.spec.steps.len() {
                return Option::None;
            }
            let idx = self.next_step;
            let plan = plan_step(&self.spec.steps[idx], &self.context, &self.config);
            match plan {
                StepPlan::Skip => {
                    let st = &self.spec.steps[idx];
                    let rc = StepReceipt {
                        step_id: crate::json::copy_string(&st.id),
                        executor: crate::json::copy_string(&st.executor),
                        status: String::from_str("skipped"),
                        request: Json::Null,
                        response: Json::Null,
                        denial_reason: Option::None,
                        error: Option::None,
                        duration_ms: 0,
                    };
                    proof {
                        crate::receipt::lemma_status_lits();
                    }
                    self.receipts.push(rc);
                    self.next_step = idx + 1;
                },
                StepPlan::Fail { error, request } => {
                    let st = &self.spec.steps[idx];
                    let rc = crate::receipt::StepReceipt::from_result(
                        st.id.as_str(),
                        st.executor.as_str(),
                        request,
                        ExecutorResult::Error { error },
                    );
                    proof {
                        crate::receipt::lemma_status_lits();
                    }
                    self.receipts.push(rc);
                    self.next_step = idx + 1;
                },
                StepPlan::Deny { denial_reason, request } => {
                    let st = &self.spec.steps[idx];
                    let rc = crate::receipt::StepReceipt::from_result(
                        st.id.as_str(),
                        st.executor.as_str(),
                        request,
                        ExecutorResult::Denied { denial_reason },
                    );
                    proof {
                        crate::receipt::lemma_status_lits();
                    }
                    self.receipts.push(rc);
                    self.next_step = idx + 1;
                },
                StepPlan::Dispatch { kind, request } => {
                    let out = request.deep_copy();
                    self.pending_request = Option::Some(request);
                    return Option::Some((kind, out));
                },
            }
        }
    }

    /// Records the driver's raw result for the pending step.  The appended
    /// receipt is exactly `StepReceipt::from_result` over the step's
    /// identifiers, the pending request, and the result, so the audit
    /// record carries precisely what was dispatched and what came back;
    /// only an executed result writes its output into the context and
    /// becomes the run's output so far, and nothing else in the run moves.
    pub fn record(&mut self, result: ExecutorResult)
        requires
            old(self).wf(),
            old(self).pending_request is Some,
        ensures
            final(self).wf(),
            final(self).spec == old(self).spec,
            final(self).config == old(self).config,
            final(self).merged == old(self).merged,
            final(self).pending_request is None,
            final(self).next_step == old(self).next_step + 1,
            final(self).receipts@.len() == old(self).receipts@.len() + 1,
            forall|i: int| 0 <= i < old(self).receipts@.len() ==> final(self).receipts@[i] == old(self).receipts@[i],
            final(self).receipts@.last().step_id@ == old(self).spec.steps@[old(self).next_step as int].id@,
            final(self).receipts@.last().executor@ == old(self).spec.steps@[old(self).next_step as int].executor@,
            old(self).pending_request matches Option::Some(p) ==> final(self).receipts@.last().request == p,
            result matches ExecutorResult::Executed { output, duration_ms } ==> {
                &&& final(self).receipts@.last().status@ == "executed"@
                &&& final(self).receipts@.last().response == output
                &&& final(self).receipts@.last().denial_reason is None
                &&& final(self).receipts@.last().error is None
                &&& final(self).receipts@.last().duration_ms == duration_ms
                &&& final(self).outputs@ == output@
                &&& crate::json::jfields_of(final(self).context.steps@)
                    == crate::json::fields_insert(
                    crate::json::jfields_of(old(self).context.steps@),
                    old(self).spec.steps@[old(self).next_step as int].id@,
                    output@,
                )
                &&& final(self).context.inputs == old(self).context.inputs
                &&& final(self).context.env == old(self).context.env
            },
            result matches ExecutorResult::Denied { denial_reason } ==> {
                &&& final(self).receipts@.last().status@ == "denied"@
                &&& final(self).receipts@.last().response@ == JVal::Null
                &&& (final(self).receipts@.last().denial_reason matches Option::Some(d) && d
                    == denial_reason)
                &&& final(self).receipts@.last().error is None
                &&& final(self).receipts@.last().duration_ms == 0
            },
            result matches ExecutorResult::Error { error } ==> {
                &&& final(self).receipts@.last().status@ == "error"@
                &&& final(self).receipts@.last().response@ == JVal::Null
                &&& final(self).receipts@.last().denial_reason is None
                &&& (final(self).receipts@.last().error matches Option::Some(e) && e == error)
                &&& final(self).receipts@.last().duration_ms == 0
            },
            !(result is Executed) ==> (final(self).context == old(self).context && final(self).outputs == old(self).outputs),
    {
        let idx = self.next_step;
        let n = self.spec.steps.len();
        assert(idx < n);
        let mut taken: Option<Json> = Option::None;
        core::mem::swap(&mut taken, &mut self.pending_request);
        let request: Json = match taken {
            Option::Some(rq) => rq,
            Option::None => Json::Null,
        };
        proof {
            crate::receipt::lemma_status_lits();
        }
        let executed_output: Option<Json> = match &result {
            ExecutorResult::Executed { output, .. } => Option::Some(output.deep_copy()),
            _ => Option::None,
        };
        let st_id = crate::json::copy_string(&self.spec.steps[idx].id);
        let st_exec = crate::json::copy_string(&self.spec.steps[idx].executor);
        let rc = crate::receipt::StepReceipt::from_result(
            st_id.as_str(),
            st_exec.as_str(),
            request,
            result,
        );
        self.receipts.push(rc);
        match executed_output {
            Option::Some(out) => {
                let copy = out.deep_copy();
                self.context.set_step_output(self.spec.steps[idx].id.as_str(), out);
                self.outputs = copy;
            },
            Option::None => {},
        }
        self.next_step = idx + 1;
    }

    /// Closes a settled run into its one receipt: one step record per
    /// declared step, the overall status, the merged inputs, the last
    /// executed output, and the configuration digest.
    pub fn finish(self, run_id: String, started_at: String, completed_at: String, total_ms: u64)
        -> (r: WorkflowReceipt)
        requires
            self.wf(),
            self.pending_request is None,
            self.next_step == self.spec.steps@.len(),
        ensures
            r.steps@.len() == self.spec.steps@.len(),
            r.status@ == status_of(r.steps@),
            r.steps@ == self.receipts@,
            r.run_id@ == run_id@,
            r.workflow_id@ == self.spec.id@,
            r.node_id@ == self.config.node.id@,
            r.started_at@ == started_at@,
            r.completed_at@ == completed_at@,
            r.mode@ == self.config.node.environment@,
            r.inputs == self.merged,
            r.outputs == self.outputs,
            r.debug.total_duration_ms == total_ms,
            r.debug.config_snapshot@ == crate::receipt::md5_hex_of(
                crate::json_text::jtext(crate::config_json::config_jval(&self.config)),
            ),
            r.debug.executor_versions@.len() == 1,
            r.debug.executor_versions@[0].0@ == "http.request"@,
            r.debug.executor_versions@[0].1@ == "0.1.0"@,
    {
        let status = crate::receipt::overall_status(&self.receipts);
        let snapshot = crate::receipt::config_snapshot_hash(&self.config);
        let mut versions: Vec<(String, String)> = Vec::new();
        versions.push((String::from_str("http.request"), String::from_str("0.1.0")));
        WorkflowReceipt {
            run_id,
            workflow_id: crate::json::copy_string(&self.spec.id),
            node_id: crate::json::copy_string(&self.config.node.id),
            started_at,
            completed_at,
            status,
            mode: crate::json::copy_string(&self.config.node.environment),
            steps: self.receipts,
            inputs: self.merged,
            outputs: self.outputs,
            debug: DebugInfo {
                config_snapshot: snapshot,
                executor_versions: versions,
                total_duration_ms: total_ms,
            },
        }
    }
}

/// The policy gate seen end to end: a settled run holds no `executed`
/// receipt for a step whose executor is off the allow-list.
pub proof fn lemma_gate_enforced(run: &WorkflowRun, i: int)
    requires
        run.wf(),
        0 <= i < run.receipts@.len(),
        !crate::executor::str_in_list(
            run.config.security.allowed_executors@,
            run.spec.steps@[i].executor@,
        ),
    ensures
        run.receipts@[i].status@ != "executed"@,
{
}

/// A fresh run identifier: twenty-one characters from the URL-safe
/// alphabet.
pub fn fresh_run_id() -> (r: String)
    ensures
        r@.len() == 21,
{
    nanoid_string(21)
}

/// Whether a character belongs to the URL-safe identifier alphabet.
pub open spec fn url_safe_char(c: char) -> bool {
    c == '_' || c == '-' || ('0' <= c && c <= '9') || ('a' <= c && c <= 'z') || ('A' <= c && c
        <= 'Z')
}

/// Relies on `nanoid::format` with `nanoid::alphabet::SAFE` and its
/// default RNG: the result holds exactly `len` characters drawn from that
/// alphabet; nothing else can be said of a random identifier.
#[verifier::external_body]
pub(crate) fn nanoid_string(len: usize) -> (r: String)
    ensures
        r@.len() == len as int,
        forall|i: int| 0 <= i < r@.len() ==> url_safe_char(#[trigger] r@[i]),
{
    nanoid::format(nanoid::rngs::default, &nanoid::alphabet::SAFE, len)
}

} // verus!
