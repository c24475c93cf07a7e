//! The run-scoped execution context.
//!
//! A context holds the merged workflow inputs, the outputs of the steps that
//! executed so far, and a snapshot of the process environment.  The variable
//! resolver reads it through dotted paths in three namespaces:
//! `inputs.<key...>`, `steps.<id>.<key...>` and `env.<NAME>`.

use vstd::prelude::*;
use vstd::string::*;

use crate::json::{fields_insert, fields_lookup, JVal, Json};
use crate::json::jfields_of;
use crate::text::{chars_to_string, split_chars, split_on, str_eq, str_to_chars, views_of};

verus! {

pub struct Context {
    pub inputs: Json,
    pub steps: Vec<(String, Json)>,
    pub env: Vec<(String, String)>,
}

/// First value bound to `name` in an environment snapshot.
pub open spec fn env_lookup(env: Seq<(String, String)>, name: Seq<char>) -> Option<Seq<char>>
    decreases env.len(),
{
    if env.len() == 0 {
        Option::None
    } else if env[0].0@ == name {
        Option::Some(env[0].1@)
    } else {
        env_lookup(env.drop_first(), name)
    }
}

/// Walks `v` through the object keys `parts[from..]`.
pub open spec fn walk(v: JVal, parts: Seq<Seq<char>>, from: int) -> Option<JVal>
    decreases parts.len() - from,
{
    if from >= parts.len() {
        Option::Some(v)
    } else {
        match v.get(parts[from]) {
            Option::Some(w) => walk(w, parts, from + 1),
            Option::None => Option::None,
        }
    }
}

/// What a dotted path resolves to: `inputs.*` walks the merged inputs,
/// `steps.<id>.*` walks that step's recorded output, `env.<NAME>` reads the
/// environment snapshot (any trailing parts are ignored, as the environment
/// holds flat strings).  Any other namespace is unresolved.
pub open spec fn ctx_path(ctx: &Context, path: Seq<char>) -> Option<JVal> {
    let parts = split_on(path, '.');
    if parts.len() == 0 {
        Option::None
    } else if parts[0] == "inputs"@ {
        walk(ctx.inputs@, parts, 1)
    } else if parts[0] == "steps"@ {
        if parts.len() < 2 {
            Option::None
        } else {
            match fields_lookup(jfields_of(ctx.steps@), parts[1]) {
                Option::Some(out) => walk(out, parts, 2),
                Option::None => Option::None,
            }
        }
    } else if parts[0] == "env"@ {
        if parts.len() < 2 {
            Option::None
        } else {
            match env_lookup(ctx.env@, parts[1]) {
                Option::Some(val) => Option::Some(JVal::Str(val)),
                Option::None => Option::None,
            }
        }
    } else {
        Option::None
    }
}

impl Context {
    /// A fresh context for one run.
    pub fn new(inputs: Json, env: Vec<(String, String)>) -> (r: Context)
        ensures
            r.inputs@ == inputs@,
            r.steps@.len() == 0,
            r.env@ == env@,
    {
        Context { inputs, steps: Vec::new(), env }
    }

    /// Records a step's output, replacing any earlier output under the same
    /// id.
    pub fn set_step_output(&mut self, step_id: &str, output: Json)
        ensures
            jfields_of(final(self).steps@) == fields_insert(
                jfields_of(old(self).steps@),
                step_id@,
                output@,
            ),
            final(self).inputs == old(self).inputs,
            final(self).env == old(self).env,
    {
        let ghost fs = jfields_of(self.steps@);
        let mut i: usize = 0;
        while i < self.steps.len()
            invariant
                i <= self.steps.len(),
                fs == jfields_of(self.steps@),
                self.inputs == old(self).inputs,
                self.env == old(self).env,
                forall|j: int| 0 <= j < i ==> (#[trigger] fs[j]).0 != step_id@,
            decreases self.steps.len() - i,
        {
            if str_eq(self.steps[i].0.as_str(), step_id) {
                proof {
                    crate::json::lemma_fields_insert_found(fs, step_id@, output@, i as int);
                }
                self.steps[i] = (String::from_str(step_id), output);
                assert(jfields_of(self.steps@) =~= fs.update(i as int, (step_id@, output@)));
                return ;
            }
            i = i + 1;
        }
        proof {
            crate::json::lemma_fields_insert_missing(fs, step_id@, output@);
        }
        let ghost fs0 = self.steps@;
        self.steps.push((String::from_str(step_id), output));
        assert(jfields_of(self.steps@) =~= fs.push((step_id@, output@)));
    }

    /// Resolves a dotted path, handing back a copy of the value it names.
    pub fn get(&self, path: &str) -> (r: Option<Json>)
        ensures
            match r {
                Option::Some(v) => ctx_path(self, path@) == Option::Some(v@),
                Option::None => ctx_path(self, path@) is None,
            },
    {
        let pc = str_to_chars(path);
        let parts = split_chars(&pc, '.');
        let ghost sparts = split_on(path@, '.');
        assert(sparts.len() == parts@.len());
        assert(forall|j: int| 0 <= j < parts@.len() ==> (#[trigger] parts@[j])@ == sparts[j]) by {
            assert(forall|j: int| 0 <= j < parts@.len() ==> views_of(parts@)[j] == (
            #[trigger] parts@[j])@);
        }
        if parts.len() == 0 {
            return Option::None;
        }
        let head = &parts[0];
        if chars_eq_str(head, "inputs") {
            self.walk_from(&self.inputs, &parts, 1, Ghost(self.inputs@))
        } else if chars_eq_str(head, "steps") {
            if parts.len() < 2 {
                return Option::None;
            }
            let id = chars_to_string(&parts[1]);
            let ghost fs = jfields_of(self.steps@);
            let mut i: usize = 0;
            assert(fs.subrange(0, fs.len() as int) =~= fs);
            while i < self.steps.len()
                invariant
                    i <= self.steps.len(),
                    fs == jfields_of(self.steps@),
                    id@ == sparts[1],
                    fields_lookup(fs.subrange(i as int, fs.len() as int), id@) == fields_lookup(
                        fs,
                        id@,
                    ),
                decreases self.steps.len() - i,
            {
                let ghost rest = fs.subrange(i as int, fs.len() as int);
                if str_eq(self.steps[i].0.as_str(), id.as_str()) {
                    assert(fields_lookup(rest, id@) == Option::Some(fs[i as int].1));
                    return self.walk_from(&self.steps[i].1, &parts, 2, Ghost(fs[i as int].1));
                }
                assert(rest.drop_first() =~= fs.subrange(i + 1 as int, fs.len() as int));
                i = i + 1;
            }
            assert(fields_lookup(fs.subrange(fs.len() as int, fs.len() as int), id@) is None);
            Option::None
        } else if chars_eq_str(head, "env") {
            if parts.len() < 2 {
                return Option::None;
            }
            let name = chars_to_string(&parts[1]);
            let ghost es = self.env@;
            let mut i: usize = 0;
            assert(es.subrange(0, es.len() as int) =~= es);
            while i < self.env.len()
                invariant
                    i <= self.env.len(),
                    es == self.env@,
                    name@ == sparts[1],
                    env_lookup(es.subrange(i as int, es.len() as int), name@) == env_lookup(
                        es,
                        name@,
                    ),
                decreases self.env.len() - i,
            {
                let ghost rest = es.subrange(i as int, es.len() as int);
                if str_eq(self.env[i].0.as_str(), name.as_str()) {
                    assert(env_lookup(rest, name@) == Option::Some(es[i as int].1@));
                    return Option::Some(Json::Str(crate::json::copy_string(&self.env[i].1)));
                }
                assert(rest.drop_first() =~= es.subrange(i + 1 as int, es.len() as int));
                i = i + 1;
            }
            assert(env_lookup(es.subrange(es.len() as int, es.len() as int), name@) is None);
            Option::None
        } else {
            Option::None
        }
    }

    /// Walks a value through the remaining path parts and copies the result.
    fn walk_from(
        &self,
        start: &Json,
        parts: &Vec<Vec<char>>,
        from: usize,
        Ghost(startv): Ghost<JVal>,
    ) -> (r: Option<Json>)
        requires
            from <= parts@.len(),
            startv == start@,
        ensures
            match r {
                Option::Some(v) => walk(startv, views_of(parts@), from as int) == Option::Some(v@),
                Option::None => walk(startv, views_of(parts@), from as int) is None,
            },
    {
        let ghost sparts = views_of(parts@);
        let mut cur: &Json = start;
        let mut i = from;
        while i < parts.len()
            invariant
                from <= i <= parts@.len(),
                sparts == views_of(parts@),
                walk(startv, sparts, from as int) == walk(cur@, sparts, i as int),
            decreases parts@.len() - i,
        {
            let key = chars_to_string(&parts[i]);
            match cur.get(key.as_str()) {
                Option::Some(next) => {
                    cur = next;
                },
                Option::None => {
                    return Option::None;
                },
            }
            i = i + 1;
        }
        Option::Some(cur.deep_copy())
    }
}

/// Equality between a character vector and a string slice.
pub fn chars_eq_str(a: &Vec<char>, b: &str) -> (r: bool)
    ensures
        r == (a@ == b@),
{
    let bc = str_to_chars(b);
    crate::text::chars_eq(a, &bc)
}

} // verus!
