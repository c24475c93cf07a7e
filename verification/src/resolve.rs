//! Variable resolution and condition evaluation.
//!
//! A step's input template is serialized to text, every `${path}` reference
//! found in that text is replaced by what the path resolves to, a second
//! pass substitutes the step's named `uses` bindings, and the result is
//! parsed back into JSON.  A reference that does not resolve is left
//! standing, so the final parse fails and the step errors.  A condition is
//! one path reduced to a truthiness check.

use vstd::prelude::*;
use vstd::string::*;

use crate::context::{ctx_path, Context};
use crate::json::{truthy, JVal, Json};
use crate::json_parse::parse_doc;
use crate::json_text::jtext;
use crate::text::{find_at, find_ch, lemma_find_at_bounds, lemma_find_ch_bounds, replace_all};

verus! {

/// The paths of the `${path}` references in `t`, scanning left to right: a
/// reference opens with `${`, runs to the next `}`, and must not be empty.
pub open spec fn scan_paths(t: Seq<char>, from: int) -> Seq<Seq<char>>
    decreases t.len() - from,
    via scan_paths_decreases
{
    if from < 0 {
        Seq::empty()
    } else {
        match find_at(t, seq!['$', '{'], from) {
            Option::None => Seq::empty(),
            Option::Some(a) => match find_ch(t, '}', a + 2) {
                Option::None => Seq::empty(),
                Option::Some(b) => if b == a + 2 {
                    scan_paths(t, a + 1)
                } else {
                    seq![t.subrange(a + 2, b)] + scan_paths(t, b + 1)
                },
            },
        }
    }
}

#[via_fn]
proof fn scan_paths_decreases(t: Seq<char>, from: int) {
    lemma_find_at_bounds(t, seq!['$', '{'], from);
    match find_at(t, seq!['$', '{'], from) {
        Option::Some(a) => {
            lemma_find_ch_bounds(t, '}', a + 2);
        },
        Option::None => {},
    }
}

/// How a resolved value is spliced into the text: a string is inlined
/// literally, anything else as its compact JSON text.
pub open spec fn splice_text(v: JVal) -> Seq<char> {
    match v {
        JVal::Str(s) => s,
        _ => jtext(v),
    }
}

/// `${name}`.
pub open spec fn pattern_of(name: Seq<char>) -> Seq<char> {
    seq!['$', '{'] + name + seq!['}']
}

/// One substitution pass: for each path in `paths`, in order, every
/// occurrence of its `${path}` pattern is replaced by what the path
/// resolves to; unresolved paths leave the text unchanged.
pub open spec fn apply_paths(t: Seq<char>, paths: Seq<Seq<char>>, ctx: &Context, i: int) -> Seq<
    char,
>
    decreases paths.len() - i,
{
    if i < 0 || i >= paths.len() {
        t
    } else {
        let t2 = match ctx_path(ctx, paths[i]) {
            Option::Some(v) => replace_all(t, pattern_of(paths[i]), splice_text(v)),
            Option::None => t,
        };
        apply_paths(t2, paths, ctx, i + 1)
    }
}

/// The `uses` pass: each declared name, in order, is replaced by what its
/// bound path resolves to.
pub open spec fn apply_uses(
    t: Seq<char>,
    uses: Seq<(String, String)>,
    ctx: &Context,
    i: int,
) -> Seq<char>
    decreases uses.len() - i,
{
    if i < 0 || i >= uses.len() {
        t
    } else {
        let t2 = match ctx_path(ctx, uses[i].1@) {
            Option::Some(v) => replace_all(t, pattern_of(uses[i].0@), splice_text(v)),
            Option::None => t,
        };
        apply_uses(t2, uses, ctx, i + 1)
    }
}

/// The fully substituted text of a step input template.
pub open spec fn resolved_text(input: JVal, uses: Seq<(String, String)>, ctx: &Context) -> Seq<
    char,
> {
    let t0 = jtext(input);
    let t1 = apply_paths(t0, scan_paths(t0, 0), ctx, 0);
    apply_uses(t1, uses, ctx, 0)
}

/// Collects the `${path}` references of `t`, as `scan_paths` defines them.
fn scan_paths_x(t: &Vec<char>) -> (r: Vec<Vec<char>>)
    ensures
        crate::text::views_of(r@) == scan_paths(t@, 0),
{
    let pat_open: Vec<char> = two_chars('$', '{');
    let mut out: Vec<Vec<char>> = Vec::new();
    let mut from: usize = 0;
    loop
        invariant
            pat_open@ =~= seq!['$', '{'],
            scan_paths(t@, 0) =~= crate::text::views_of(out@) + scan_paths(t@, from as int),
        decreases t@.len() - from,
    {
        proof {
            lemma_find_at_bounds(t@, seq!['$', '{'], from as int);
        }
        match crate::text::find_sub(t, &pat_open, from) {
            Option::None => {
                assert(scan_paths(t@, from as int) =~= Seq::empty());
                assert(crate::text::views_of(out@) + Seq::empty() =~= crate::text::views_of(out@));
                return out;
            },
            Option::Some(a) => {
                proof {
                    lemma_find_ch_bounds(t@, '}', a + 2 as int);
                }
                if t.len() - a < 2 {
                    assert(find_ch(t@, '}', a + 2 as int) is None);
                    assert(scan_paths(t@, from as int) =~= Seq::empty());
                    assert(crate::text::views_of(out@) + Seq::empty() =~= crate::text::views_of(
                        out@,
                    ));
                    return out;
                }
                match crate::text::find_char_from(t, '}', a + 2) {
                    Option::None => {
                        assert(scan_paths(t@, from as int) =~= Seq::empty());
                        assert(crate::text::views_of(out@) + Seq::empty()
                            =~= crate::text::views_of(out@));
                        return out;
                    },
                    Option::Some(b) => {
                        if b == a + 2 {
                            from = a + 1;
                        } else {
                            let mut piece: Vec<char> = Vec::new();
                            crate::text::push_range(&mut piece, t, a + 2, b);
                            assert(piece@ =~= t@.subrange(a + 2 as int, b as int));
                            out.push(piece);
                            proof {
                                assert(crate::text::views_of(out@) =~= crate::text::views_of(
                                    out@.drop_last(),
                                ) + seq![t@.subrange(a + 2 as int, b as int)]);
                                assert((crate::text::views_of(out@.drop_last()) + seq![
                                    t@.subrange(a + 2 as int, b as int),
                                ]) + scan_paths(t@, b + 1 as int) =~= crate::text::views_of(
                                    out@.drop_last(),
                                ) + (seq![t@.subrange(a + 2 as int, b as int)] + scan_paths(
                                    t@,
                                    b + 1 as int,
                                )));
                            }
                            from = b + 1;
                        }
                    },
                }
            },
        }
    }
}

/// `${` then `name` then `}` as a character vector.
fn build_pattern(name: &Vec<char>) -> (r: Vec<char>)
    ensures
        r@ == pattern_of(name@),
{
    let mut r: Vec<char> = Vec::new();
    r.push('$');
    r.push('{');
    crate::text::push_range(&mut r, name, 0, name.len());
    r.push('}');
    assert(name@.subrange(0, name@.len() as int) =~= name@);
    assert(r@ =~= pattern_of(name@));
    r
}

/// The text a resolved value is spliced in as.
fn splice_chars(v: &Json) -> (r: Vec<char>)
    ensures
        r@ == splice_text(v@),
{
    match v {
        Json::Str(s) => crate::text::str_to_chars(s.as_str()),
        _ => {
            let mut out: Vec<char> = Vec::new();
            crate::json_text::write_json(v, &mut out);
            assert(out@ =~= jtext(v@));
            out
        },
    }
}

/// Resolves every variable reference in `input` against `ctx` and parses
/// the substituted text back into JSON.  An unresolved reference stays in
/// the text, so the parse fails and the step reports an error.
pub fn resolve_variables(input: &Json, uses: &Vec<(String, String)>, ctx: &Context) -> (r: Result<
    Json,
    String,
>)
    ensures
        match r {
            Result::Ok(v) => parse_doc(resolved_text(input@, uses@, ctx)) == Option::Some(v@),
            Result::Err(e) => parse_doc(resolved_text(input@, uses@, ctx)) is None && e@
                == "substituted step input is not valid JSON"@,
        },
{
    let mut t: Vec<char> = Vec::new();
    crate::json_text::write_json(input, &mut t);
    assert(t@ =~= jtext(input@));
    let ghost t0 = t@;
    let paths = scan_paths_x(&t);
    let ghost spaths = scan_paths(t0, 0);
    let mut i: usize = 0;
    while i < paths.len()
        invariant
            i <= paths.len(),
            spaths == crate::text::views_of(paths@),
            apply_paths(t0, spaths, ctx, 0) == apply_paths(t@, spaths, ctx, i as int),
        decreases paths.len() - i,
    {
        let ghost before = t@;
        let path_str = crate::text::chars_to_string(&paths[i]);
        match ctx.get(path_str.as_str()) {
            Option::Some(v) => {
                let pat = build_pattern(&paths[i]);
                let repl = splice_chars(&v);
                t = crate::text::replace_chars(&t, &pat, &repl);
                assert(t@ == replace_all(before, pattern_of(spaths[i as int]), splice_text(v@)));
            },
            Option::None => {},
        }
        i = i + 1;
    }
    assert(apply_paths(t0, spaths, ctx, 0) == t@) by {
        assert(apply_paths(t@, spaths, ctx, paths@.len() as int) == t@);
    }
    let ghost t1 = t@;
    let mut i: usize = 0;
    while i < uses.len()
        invariant
            i <= uses.len(),
            apply_uses(t1, uses@, ctx, 0) == apply_uses(t@, uses@, ctx, i as int),
        decreases uses.len() - i,
    {
        let ghost before = t@;
        match ctx.get(uses[i].1.as_str()) {
            Option::Some(v) => {
                let key_chars = crate::text::str_to_chars(uses[i].0.as_str());
                let pat = build_pattern(&key_chars);
                let repl = splice_chars(&v);
                t = crate::text::replace_chars(&t, &pat, &repl);
                assert(t@ == replace_all(before, pattern_of(uses@[i as int].0@), splice_text(v@)));
            },
            Option::None => {},
        }
        i = i + 1;
    }
    assert(apply_uses(t1, uses@, ctx, 0) == t@) by {
        assert(apply_uses(t@, uses@, ctx, uses@.len() as int) == t@);
    }
    match crate::json_parse::parse_chars(&t) {
        Option::Some(v) => Result::Ok(v),
        Option::None => Result::Err(String::from_str("substituted step input is not valid JSON")),
    }
}

/// A condition holds when its path resolves to a truthy value; an
/// unresolved path is false.
pub open spec fn condition_holds(ctx: &Context, cond: Seq<char>) -> bool {
    match ctx_path(ctx, cond) {
        Option::Some(v) => truthy(v),
        Option::None => false,
    }
}

/// Evaluates a step condition.
pub fn evaluate_condition(cond: &str, ctx: &Context) -> (r: bool)
    ensures
        r == condition_holds(ctx, cond@),
{
    match ctx.get(cond) {
        Option::Some(v) => v.is_truthy(),
        Option::None => false,
    }
}

fn two_chars(a: char, b: char) -> (r: Vec<char>)
    ensures
        r@ =~= seq![a, b],
{
    let mut r: Vec<char> = Vec::new();
    r.push(a);
    r.push(b);
    r
}

} // verus!
