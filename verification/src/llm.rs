//! The LLM chat executor.
//!
//! Planning selects the provider endpoint and payload shape and resolves
//! the API key; the session state machine owns the retry, backoff and
//! fallback-model policy over the driver's raw responses; and the
//! extraction cascade digs the assistant's reply out of the known response
//! shapes, falling back to a deep scan for the longest nontrivial string.

use vstd::prelude::*;
use vstd::string::*;

use crate::config::{trimmed, LlmConfig};
use crate::executor::{jv_field, ExecutorResult};
use crate::json::{fields_lookup, JVal, Json};

verus! {

pub proof fn lemma_fields_lookup_elem(fields: Seq<(Seq<char>, JVal)>, key: Seq<char>)
    ensures
        fields_lookup(fields, key) matches Option::Some(x) ==> exists|i: int|
            0 <= i < fields.len() && (#[trigger] fields[i]) == (key, x),
    decreases fields.len(),
{
    if fields.len() > 0 && fields[0].0 != key {
        lemma_fields_lookup_elem(fields.drop_first(), key);
        match fields_lookup(fields, key) {
            Option::Some(x) => {
                let i = choose|i: int|
                    0 <= i < fields.drop_first().len() && (#[trigger] fields.drop_first()[i]) == (
                    key,
                    x,
                    );
                assert(fields[i + 1] == (key, x));
            },
            Option::None => {},
        }
    }
}

/// An array element, or `null` out of range.
pub open spec fn jv_index(v: JVal, i: int) -> JVal {
    match v {
        JVal::Arr(items) => if 0 <= i < items.len() {
            items[i]
        } else {
            JVal::Null
        },
        _ => JVal::Null,
    }
}

/// Nonempty once surrounding whitespace is gone.
pub open spec fn has_ink(s: Seq<char>) -> bool {
    trimmed(s).len() > 0
}

/// The text a value carries: a string itself; an array, its textual
/// elements joined with newlines; an object, the first of its `text`,
/// `content` or `value` fields that carries text.
pub open spec fn ext_text(v: JVal) -> Seq<char>
    decreases v, 2int,
    via ext_text_decreases
{
    match v {
        JVal::Str(s) => s,
        JVal::Arr(items) => join_nl(arr_parts(items)),
        JVal::Obj(_) => {
            match obj_try(v, "text"@) {
                Option::Some(t) => t,
                Option::None => match obj_try(v, "content"@) {
                    Option::Some(t) => t,
                    Option::None => match obj_try(v, "value"@) {
                        Option::Some(t) => t,
                        Option::None => Seq::empty(),
                    },
                },
            }
        },
        _ => Seq::empty(),
    }
}

#[via_fn]
proof fn ext_text_decreases(v: JVal) {
}

/// The key's extracted text, when it has any ink.
pub open spec fn obj_try(v: JVal, key: Seq<char>) -> Option<Seq<char>>
    decreases v, 1int,
    via obj_try_decreases
{
    match v.get(key) {
        Option::Some(w) => if has_ink(ext_text(w)) {
            Option::Some(ext_text(w))
        } else {
            Option::None
        },
        Option::None => Option::None,
    }
}

#[via_fn]
proof fn obj_try_decreases(v: JVal, key: Seq<char>) {
    match v {
        JVal::Obj(fields) => {
            lemma_fields_lookup_elem(fields, key);
            match fields_lookup(fields, key) {
                Option::Some(w) => {
                    let i = choose|i: int|
                        0 <= i < fields.len() && (#[trigger] fields[i]) == (key, w);
                    assert(decreases_to!(v => fields));
                    assert(decreases_to!(fields => fields[i]));
                    assert(decreases_to!(fields[i] => fields[i].1));
                    assert(decreases_to!(v, 1int => w, 2int));
                },
                Option::None => {},
            }
        },
        _ => {},
    }
}

/// What one array element contributes: its own text, the first of its
/// `text`, `content` or `value` fields that is a string with ink, or the
/// text extracted from its `content` value.
pub open spec fn item_part(item: JVal) -> Seq<char>
    decreases item, 3int,
    via item_part_decreases
{
    match item {
        JVal::Str(s) => if has_ink(s) {
            s
        } else {
            Seq::empty()
        },
        _ => {
            if jv_field(item, "text"@) matches JVal::Str(s) && has_ink(s) {
                jv_field(item, "text"@)->Str_0
            } else if jv_field(item, "content"@) matches JVal::Str(s) && has_ink(s) {
                jv_field(item, "content"@)->Str_0
            } else if jv_field(item, "value"@) matches JVal::Str(s) && has_ink(s) {
                jv_field(item, "value"@)->Str_0
            } else {
                match item.get("content"@) {
                    Option::Some(nested) => if has_ink(ext_text(nested)) {
                        ext_text(nested)
                    } else {
                        Seq::empty()
                    },
                    Option::None => Seq::empty(),
                }
            }
        },
    }
}

#[via_fn]
proof fn item_part_decreases(item: JVal) {
    match item {
        JVal::Obj(fields) => {
            lemma_fields_lookup_elem(fields, "content"@);
            match fields_lookup(fields, "content"@) {
                Option::Some(w) => {
                    let i = choose|i: int|
                        0 <= i < fields.len() && (#[trigger] fields[i]) == ("content"@, w);
                    assert(decreases_to!(item => fields));
                    assert(decreases_to!(fields => fields[i]));
                    assert(decreases_to!(fields[i] => fields[i].1));
                    assert(decreases_to!(item, 3int => w, 2int));
                },
                Option::None => {},
            }
        },
        _ => {},
    }
}

/// The nonempty contributions of an array's elements, in order.
pub open spec fn arr_parts(items: Seq<JVal>) -> Seq<Seq<char>>
    decreases items, 4int,
{
    if items.len() == 0 {
        Seq::empty()
    } else {
        let p = item_part(items.first());
        if p.len() > 0 {
            seq![p] + arr_parts(items.drop_first())
        } else {
            arr_parts(items.drop_first())
        }
    }
}

/// Parts joined with a newline between each.
pub open spec fn join_nl(parts: Seq<Seq<char>>) -> Seq<char>
    decreases parts.len(),
{
    if parts.len() == 0 {
        Seq::empty()
    } else if parts.len() == 1 {
        parts[0]
    } else {
        parts[0] + seq!['\n'] + join_nl(parts.drop_first())
    }
}

/// Every string a value holds anywhere, trimmed, the empty ones dropped.
pub open spec fn collect_strs(v: JVal) -> Seq<Seq<char>>
    decreases v, 1int,
{
    match v {
        JVal::Str(s) => if has_ink(s) {
            seq![trimmed(s)]
        } else {
            Seq::empty()
        },
        JVal::Arr(items) => collect_list(items),
        JVal::Obj(fields) => collect_fields(fields),
        _ => Seq::empty(),
    }
}

pub open spec fn collect_list(items: Seq<JVal>) -> Seq<Seq<char>>
    decreases items, 2int,
{
    if items.len() == 0 {
        Seq::empty()
    } else {
        collect_strs(items.first()) + collect_list(items.drop_first())
    }
}

pub open spec fn collect_fields(fields: Seq<(Seq<char>, JVal)>) -> Seq<Seq<char>>
    decreases fields, 2int,
{
    if fields.len() == 0 {
        Seq::empty()
    } else {
        collect_strs(fields.first().1) + collect_fields(fields.drop_first())
    }
}

/// The parts of length at least eight.
pub open spec fn keep_long(parts: Seq<Seq<char>>) -> Seq<Seq<char>>
    decreases parts.len(),
{
    if parts.len() == 0 {
        Seq::empty()
    } else if parts.first().len() >= 8 {
        seq![parts.first()] + keep_long(parts.drop_first())
    } else {
        keep_long(parts.drop_first())
    }
}

/// The longest part; on a tie, the latest one.
pub open spec fn best_part(parts: Seq<Seq<char>>) -> Option<Seq<char>>
    decreases parts.len(),
{
    if parts.len() == 0 {
        Option::None
    } else {
        match best_part(parts.drop_last()) {
            Option::None => Option::Some(parts.last()),
            Option::Some(b) => if parts.last().len() >= b.len() {
                Option::Some(parts.last())
            } else {
                Option::Some(b)
            },
        }
    }
}

/// The assistant's reply in a provider response: the provider-aware shape
/// first, then the common shapes, then a set of known named fields, and as
/// a last resort the longest string of at least eight characters anywhere
/// in the response.
pub open spec fn assistant_content(parsed: JVal, provider: Seq<char>) -> Seq<char> {
    if provider == "anthropic"@ && has_ink(ext_text(jv_field(parsed, "content"@))) {
        ext_text(jv_field(parsed, "content"@))
    } else {
        let choice = jv_index(jv_field(parsed, "choices"@), 0);
        if has_ink(ext_text(jv_field(jv_field(choice, "message"@), "content"@))) {
            ext_text(jv_field(jv_field(choice, "message"@), "content"@))
        } else if has_ink(ext_text(jv_field(choice, "text"@))) {
            ext_text(jv_field(choice, "text"@))
        } else if has_ink(ext_text(jv_field(parsed, "output_text"@))) {
            ext_text(jv_field(parsed, "output_text"@))
        } else if has_ink(ext_text(jv_field(parsed, "output"@))) {
            ext_text(jv_field(parsed, "output"@))
        } else if has_ink(ext_text(jv_field(parsed, "response"@))) {
            ext_text(jv_field(parsed, "response"@))
        } else if has_ink(ext_text(jv_field(parsed, "answer"@))) {
            ext_text(jv_field(parsed, "answer"@))
        } else if has_ink(ext_text(jv_field(parsed, "assistant"@))) {
            ext_text(jv_field(parsed, "assistant"@))
        } else if has_ink(ext_text(jv_field(parsed, "final"@))) {
            ext_text(jv_field(parsed, "final"@))
        } else if has_ink(ext_text(jv_field(parsed, "reasoning"@))) {
            ext_text(jv_field(parsed, "reasoning"@))
        } else {
            match best_part(keep_long(collect_strs(parsed))) {
                Option::Some(b) => b,
                Option::None => Seq::empty(),
            }
        }
    }
}

/// The views of owned strings.
pub open spec fn str_views(ss: Seq<String>) -> Seq<Seq<char>> {
    Seq::new(ss.len(), |i: int| ss[i]@)
}

/// The tail of a newline join: a newline before each part.
pub open spec fn nl_rest(parts: Seq<Seq<char>>) -> Seq<char>
    decreases parts.len(),
{
    if parts.len() == 0 {
        Seq::empty()
    } else {
        seq!['\n'] + parts.first() + nl_rest(parts.drop_first())
    }
}

pub proof fn lemma_join_nl(parts: Seq<Seq<char>>)
    requires
        parts.len() >= 1,
    ensures
        join_nl(parts) == parts.first() + nl_rest(parts.drop_first()),
    decreases parts.len(),
{
    if parts.len() == 1 {
        assert(nl_rest(parts.drop_first()) =~= Seq::empty());
        assert(parts.first() + Seq::<char>::empty() =~= parts.first());
    } else {
        lemma_join_nl(parts.drop_first());
        assert(parts.drop_first().drop_first() =~= parts.drop_first().drop_first());
        assert(parts.first() + (seq!['\n'] + parts.drop_first().first() + nl_rest(
            parts.drop_first().drop_first(),
        )) =~= parts.first() + seq!['\n'] + parts.drop_first().first() + nl_rest(
            parts.drop_first().drop_first(),
        ));
    }
}

/// Whether a string has any ink.
fn ink(s: &str) -> (r: bool)
    ensures
        r == has_ink(s@),
{
    let t = crate::config::trim_chars(s);
    t.as_str().unicode_len() > 0
}

/// The text a value carries, as `ext_text` defines it.
pub fn extract_text_from_value(v: &Json) -> (r: String)
    ensures
        r@ == ext_text(v@),
    decreases v, 2int,
{
    match v {
        Json::Str(s) => crate::json::copy_string(s),
        Json::Arr(items) => {
            let ghost vitems = v@->Arr_0;
            let mut parts: Vec<String> = Vec::new();
            let mut i: usize = 0;
            assert(vitems.subrange(0, vitems.len() as int) =~= vitems);
            assert(str_views(parts@) + arr_parts(vitems) =~= arr_parts(vitems));
            while i < items.len()
                invariant
                    i <= items.len(),
                    vitems == v@->Arr_0,
                    v@ is Arr,
                    vitems.len() == items@.len(),
                    forall|j: int| 0 <= j < items@.len() ==> (#[trigger] vitems[j]) == items@[j]@,
                    str_views(parts@) + arr_parts(vitems.subrange(i as int, vitems.len() as int))
                        == arr_parts(vitems),
                decreases items.len() - i,
            {
                let ghost rest = vitems.subrange(i as int, vitems.len() as int);
                let ghost pv0 = str_views(parts@);
                proof {
                    assert(rest.first() == vitems[i as int]);
                    assert(rest.drop_first() =~= vitems.subrange(i + 1 as int, vitems.len() as int));
                }
                let p = item_part_x(&items[i]);
                if p.as_str().unicode_len() > 0 {
                    let ghost pval = p@;
                    parts.push(p);
                    proof {
                        assert(str_views(parts@) =~= pv0.push(pval));
                        assert(pv0.push(pval) + arr_parts(rest.drop_first()) =~= pv0 + (seq![pval]
                            + arr_parts(rest.drop_first())));
                    }
                }
                i = i + 1;
            }
            assert(arr_parts(vitems.subrange(vitems.len() as int, vitems.len() as int))
                =~= Seq::empty());
            assert(str_views(parts@) + Seq::<Seq<char>>::empty() =~= str_views(parts@));
            let ghost pviews = str_views(parts@);
            let mut out = String::new();
            let mut j: usize = 0;
            while j < parts.len()
                invariant
                    j <= parts.len(),
                    pviews == str_views(parts@),
                    j == 0 ==> out@ == Seq::<char>::empty(),
                    j >= 1 ==> out@ + nl_rest(pviews.subrange(j as int, pviews.len() as int))
                        == join_nl(pviews),
                decreases parts.len() - j,
            {
                let ghost rest = pviews.subrange(j as int, pviews.len() as int);
                proof {
                    assert(rest.first() == pviews[j as int]);
                    assert(rest.drop_first() =~= pviews.subrange(j + 1 as int, pviews.len() as int));
                }
                if j == 0 {
                    proof {
                        lemma_join_nl(pviews);
                        assert(pviews.first() == pviews[0]);
                        assert(pviews.drop_first() =~= pviews.subrange(1, pviews.len() as int));
                    }
                    out.append(parts[0].as_str());
                } else {
                    crate::text::push_char(&mut out, '\n');
                    out.append(parts[j].as_str());
                }
                j = j + 1;
            }
            proof {
                if pviews.len() == 0 {
                    assert(join_nl(pviews) =~= Seq::empty());
                } else {
                    assert(nl_rest(pviews.subrange(pviews.len() as int, pviews.len() as int))
                        =~= Seq::empty());
                    assert(out@ + Seq::<char>::empty() =~= out@);
                }
            }
            assert(out@ == join_nl(arr_parts(vitems)));
            out
        },
        Json::Obj(_) => {
            match v.get("text") {
                Option::Some(w) => {
                    proof {
                        lemma_contained(v, w);
                    }
                    let t = extract_text_from_value(w);
                    if ink(t.as_str()) {
                        return t;
                    }
                },
                Option::None => {},
            }
            match v.get("content") {
                Option::Some(w) => {
                    proof {
                        lemma_contained(v, w);
                    }
                    let t = extract_text_from_value(w);
                    if ink(t.as_str()) {
                        return t;
                    }
                },
                Option::None => {},
            }
            match v.get("value") {
                Option::Some(w) => {
                    proof {
                        lemma_contained(v, w);
                    }
                    let t = extract_text_from_value(w);
                    if ink(t.as_str()) {
                        return t;
                    }
                },
                Option::None => {},
            }
            String::new()
        },
        _ => String::new(),
    }
}

/// A value handed out by `Json::get` is structurally inside its object.
proof fn lemma_contained(v: &Json, w: &Json)
    requires
        *v matches Json::Obj(fields) && exists|i: int|
            0 <= i < fields@.len() && (#[trigger] fields@[i]).1 == *w,
    ensures
        decreases_to!(*v => *w),
{
    match v {
        Json::Obj(fields) => {
            let i = choose|i: int| 0 <= i < fields@.len() && (#[trigger] fields@[i]).1 == *w;
            assert(decreases_to!(*v => v->Obj_0));
            assert(decreases_to!(*fields => fields@[i]));
            assert(decreases_to!(fields@[i] => fields@[i].1));
        },
        _ => {
            assert(false);
        },
    }
}

/// What one array element contributes, as `item_part` defines it.
fn item_part_x(item: &Json) -> (r: String)
    ensures
        r@ == item_part(item@),
    decreases item, 3int,
{
    match item {
        Json::Str(s) => {
            if ink(s.as_str()) {
                crate::json::copy_string(s)
            } else {
                String::new()
            }
        },
        _ => {
            match item.get("text") {
                Option::Some(w) => match w {
                    Json::Str(s) => {
                        if ink(s.as_str()) {
                            return crate::json::copy_string(s);
                        }
                    },
                    _ => {},
                },
                Option::None => {},
            }
            match item.get("content") {
                Option::Some(w) => match w {
                    Json::Str(s) => {
                        if ink(s.as_str()) {
                            return crate::json::copy_string(s);
                        }
                    },
                    _ => {},
                },
                Option::None => {},
            }
            match item.get("value") {
                Option::Some(w) => match w {
                    Json::Str(s) => {
                        if ink(s.as_str()) {
                            return crate::json::copy_string(s);
                        }
                    },
                    _ => {},
                },
                Option::None => {},
            }
            match item.get("content") {
                Option::Some(nested) => {
                    proof {
                        lemma_contained(item, nested);
                    }
                    let t = extract_text_from_value(nested);
                    if ink(t.as_str()) {
                        t
                    } else {
                        String::new()
                    }
                },
                Option::None => String::new(),
            }
        },
    }
}

/// Collects every string `v` holds anywhere, as `collect_strs` defines it.
pub fn collect_string_values(v: &Json, out: &mut Vec<String>)
    ensures
        str_views(final(out)@) == str_views(old(out)@) + collect_strs(v@),
    decreases v, 1int,
{
    match v {
        Json::Str(s) => {
            let t = crate::config::trim_chars(s.as_str());
            if t.as_str().unicode_len() > 0 {
                let ghost tv = t@;
                let ghost o0 = str_views(out@);
                out.push(t);
                assert(str_views(out@) =~= o0.push(tv));
                assert(o0.push(tv) =~= o0 + seq![tv]);
            } else {
                assert(str_views(out@) + collect_strs(v@) =~= str_views(out@));
            }
        },
        Json::Arr(items) => {
            let ghost vitems = v@->Arr_0;
            let mut i: usize = 0;
            assert(vitems.subrange(0, vitems.len() as int) =~= vitems);
            assert(str_views(out@) + collect_list(vitems) =~= str_views(old(out)@) + collect_list(
                vitems,
            ));
            while i < items.len()
                invariant
                    i <= items.len(),
                    vitems == v@->Arr_0,
                    v@ is Arr,
                    vitems.len() == items@.len(),
                    forall|j: int| 0 <= j < items@.len() ==> (#[trigger] vitems[j]) == items@[j]@,
                    str_views(out@) + collect_list(vitems.subrange(i as int, vitems.len() as int))
                        == str_views(old(out)@) + collect_list(vitems),
                decreases items.len() - i,
            {
                let ghost rest = vitems.subrange(i as int, vitems.len() as int);
                let ghost o0 = str_views(out@);
                proof {
                    assert(rest.first() == vitems[i as int]);
                    assert(rest.drop_first() =~= vitems.subrange(i + 1 as int, vitems.len() as int));
                }
                collect_string_values(&items[i], out);
                proof {
                    assert((o0 + collect_strs(vitems[i as int])) + collect_list(rest.drop_first())
                        =~= o0 + (collect_strs(vitems[i as int]) + collect_list(rest.drop_first())));
                }
                i = i + 1;
            }
            assert(collect_list(vitems.subrange(vitems.len() as int, vitems.len() as int))
                =~= Seq::empty());
            assert(str_views(out@) + Seq::<Seq<char>>::empty() =~= str_views(out@));
        },
        Json::Obj(fields) => {
            let ghost vfields = v@->Obj_0;
            let mut i: usize = 0;
            assert(vfields.subrange(0, vfields.len() as int) =~= vfields);
            assert(str_views(out@) + collect_fields(vfields) =~= str_views(old(out)@)
                + collect_fields(vfields));
            while i < fields.len()
                invariant
                    i <= fields.len(),
                    vfields == v@->Obj_0,
                    v@ is Obj,
                    vfields.len() == fields@.len(),
                    forall|j: int| 0 <= j < fields@.len() ==> (#[trigger] vfields[j]) == (
                    fields@[j].0@,
                    fields@[j].1@,
                    ),
                    str_views(out@) + collect_fields(
                        vfields.subrange(i as int, vfields.len() as int),
                    ) == str_views(old(out)@) + collect_fields(vfields),
                decreases fields.len() - i,
            {
                let ghost rest = vfields.subrange(i as int, vfields.len() as int);
                let ghost o0 = str_views(out@);
                proof {
                    assert(rest.first() == vfields[i as int]);
                    assert(rest.drop_first() =~= vfields.subrange(
                        i + 1 as int,
                        vfields.len() as int,
                    ));
                }
                collect_string_values(&fields[i].1, out);
                proof {
                    assert((o0 + collect_strs(vfields[i as int].1)) + collect_fields(
                        rest.drop_first(),
                    ) =~= o0 + (collect_strs(vfields[i as int].1) + collect_fields(
                        rest.drop_first(),
                    )));
                }
                i = i + 1;
            }
            assert(collect_fields(vfields.subrange(vfields.len() as int, vfields.len() as int))
                =~= Seq::empty());
            assert(str_views(out@) + Seq::<Seq<char>>::empty() =~= str_views(out@));
        },
        _ => {
            assert(str_views(out@) + collect_strs(v@) =~= str_views(out@));
        },
    }
}

/// A field's extracted text, when it has ink.
fn try_field(v: &Json, key: &str) -> (r: Option<String>)
    ensures
        match r {
            Option::Some(t) => t@ == ext_text(jv_field(v@, key@)) && has_ink(t@),
            Option::None => !has_ink(ext_text(jv_field(v@, key@))),
        },
{
    match v.get(key) {
        Option::Some(w) => {
            let t = extract_text_from_value(w);
            if ink(t.as_str()) {
                Option::Some(t)
            } else {
                Option::None
            }
        },
        Option::None => Option::None,
    }
}

/// The assistant's reply in a provider response, as `assistant_content`
/// defines it.
pub fn extract_assistant_content(parsed: &Json, provider: &str) -> (r: String)
    ensures
        r@ == assistant_content(parsed@, provider@),
{
    if crate::text::str_eq(provider, "anthropic") {
        match try_field(parsed, "content") {
            Option::Some(t) => {
                return t;
            },
            Option::None => {},
        }
    }
    let ghost choicev = jv_index(jv_field(parsed@, "choices"@), 0);
    let choice: Option<&Json> = match parsed.get("choices") {
        Option::Some(c) => match c {
            Json::Arr(items) => {
                if items.len() > 0 {
                    assert(items@[0]@ == choicev);
                    Option::Some(&items[0])
                } else {
                    Option::None
                }
            },
            _ => Option::None,
        },
        Option::None => Option::None,
    };
    match choice {
        Option::Some(ch) => {
            match ch.get("message") {
                Option::Some(msg) => {
                    match try_field(msg, "content") {
                        Option::Some(t) => {
                            return t;
                        },
                        Option::None => {},
                    }
                },
                Option::None => {
                    assert(jv_field(jv_field(choicev, "message"@), "content"@) == JVal::Null);
                },
            }
            match try_field(ch, "text") {
                Option::Some(t) => {
                    return t;
                },
                Option::None => {},
            }
        },
        Option::None => {
            assert(jv_field(choicev, "message"@) == JVal::Null);
            assert(jv_field(choicev, "text"@) == JVal::Null);
        },
    }
    match try_field(parsed, "output_text") {
        Option::Some(t) => {
            return t;
        },
        Option::None => {},
    }
    match try_field(parsed, "output") {
        Option::Some(t) => {
            return t;
        },
        Option::None => {},
    }
    match try_field(parsed, "response") {
        Option::Some(t) => {
            return t;
        },
        Option::None => {},
    }
    match try_field(parsed, "answer") {
        Option::Some(t) => {
            return t;
        },
        Option::None => {},
    }
    match try_field(parsed, "assistant") {
        Option::Some(t) => {
            return t;
        },
        Option::None => {},
    }
    match try_field(parsed, "final") {
        Option::Some(t) => {
            return t;
        },
        Option::None => {},
    }
    match try_field(parsed, "reasoning") {
        Option::Some(t) => {
            return t;
        },
        Option::None => {},
    }
    let mut strings: Vec<String> = Vec::new();
    collect_string_values(parsed, &mut strings);
    assert(str_views(strings@) =~= collect_strs(parsed@));
    let ghost all = str_views(strings@);
    let mut best: Option<usize> = Option::None;
    let mut i: usize = 0;
    assert(all.subrange(0, 0) =~= Seq::<Seq<char>>::empty());
    while i < strings.len()
        invariant
            i <= strings.len(),
            all == str_views(strings@),
            match best {
                Option::Some(b) => b < i && all[b as int].len() >= 8 && best_part(
                    keep_long(all.subrange(0, i as int)),
                ) == Option::Some(all[b as int]),
                Option::None => best_part(keep_long(all.subrange(0, i as int))) is None,
            },
        decreases strings.len() - i,
    {
        proof {
            lemma_keep_long_snoc(all, i as int);
        }
        let li = strings[i].as_str().unicode_len();
        if li >= 8 {
            let take = match best {
                Option::Some(b) => li >= strings[b].as_str().unicode_len(),
                Option::None => true,
            };
            if take {
                best = Option::Some(i);
            }
        }
        i = i + 1;
    }
    assert(all.subrange(0, all.len() as int) =~= all);
    match best {
        Option::Some(b) => crate::json::copy_string(&strings[b]),
        Option::None => String::new(),
    }
}

/// Extending the scan by one element extends its filtered view by that
/// element exactly when it is long enough; the running best follows.
proof fn lemma_keep_long_snoc(all: Seq<Seq<char>>, i: int)
    requires
        0 <= i < all.len(),
    ensures
        all[i].len() >= 8 ==> best_part(keep_long(all.subrange(0, i + 1))) == (match best_part(
            keep_long(all.subrange(0, i)),
        ) {
            Option::None => Option::Some(all[i]),
            Option::Some(b) => if all[i].len() >= b.len() {
                Option::Some(all[i])
            } else {
                Option::Some(b)
            },
        }),
        all[i].len() < 8 ==> keep_long(all.subrange(0, i + 1)) == keep_long(all.subrange(0, i)),
    decreases i + 1,
{
    lemma_keep_long_split(all.subrange(0, i + 1));
    assert(all.subrange(0, i + 1).drop_last() =~= all.subrange(0, i));
    assert(all.subrange(0, i + 1).last() == all[i]);
}

/// `keep_long` and `best_part` over a sequence and its last element.
proof fn lemma_keep_long_split(s: Seq<Seq<char>>)
    requires
        s.len() >= 1,
    ensures
        s.last().len() >= 8 ==> keep_long(s) == keep_long(s.drop_last()).push(s.last()),
        s.last().len() < 8 ==> keep_long(s) == keep_long(s.drop_last()),
        s.last().len() >= 8 ==> best_part(keep_long(s)) == (match best_part(
            keep_long(s.drop_last()),
        ) {
            Option::None => Option::Some(s.last()),
            Option::Some(b) => if s.last().len() >= b.len() {
                Option::Some(s.last())
            } else {
                Option::Some(b)
            },
        }),
    decreases s.len(),
{
    if s.len() == 1 {
        assert(s.drop_last() =~= Seq::<Seq<char>>::empty());
        if s.last().len() >= 8 {
            assert(s.drop_first() =~= Seq::<Seq<char>>::empty());
            assert(keep_long(s) =~= seq![s.first()]);
            assert(keep_long(s.drop_last()).push(s.last()) =~= seq![s.first()]);
            assert(keep_long(s).drop_last() =~= Seq::<Seq<char>>::empty());
        } else {
            assert(s.drop_first() =~= Seq::<Seq<char>>::empty());
            assert(keep_long(s) =~= Seq::<Seq<char>>::empty());
        }
    } else {
        lemma_keep_long_split(s.drop_first());
        assert(s.drop_first().drop_last() =~= s.drop_last().drop_first());
        assert(s.drop_first().last() == s.last());
        if s.first().len() >= 8 {
            assert(keep_long(s) == seq![s.first()] + keep_long(s.drop_first()));
            assert(keep_long(s.drop_last()) == seq![s.drop_last().first()] + keep_long(
                s.drop_last().drop_first(),
            ));
            assert(s.drop_last().first() == s.first());
            if s.last().len() >= 8 {
                assert(keep_long(s) =~= (seq![s.first()] + keep_long(
                    s.drop_first().drop_last(),
                )).push(s.last()));
                assert(keep_long(s.drop_last()).push(s.last()) =~= (seq![s.first()] + keep_long(
                    s.drop_last().drop_first(),
                )).push(s.last()));
                lemma_best_part_snoc(seq![s.first()] + keep_long(s.drop_first().drop_last()), keep_long(s.drop_first().drop_last()), s.first(), s.last());
            } else {
                assert(keep_long(s) =~= keep_long(s.drop_last()));
            }
        } else {
            assert(keep_long(s) == keep_long(s.drop_first()));
            assert(keep_long(s.drop_last()) == keep_long(s.drop_last().drop_first()));
            if s.last().len() >= 8 {
                assert(keep_long(s) =~= keep_long(s.drop_last()).push(s.last()));
            } else {
                assert(keep_long(s) =~= keep_long(s.drop_last()));
            }
        }
    }
}

/// `best_part` of a cons-and-snoc decomposition.
proof fn lemma_best_part_snoc(whole: Seq<Seq<char>>, tail: Seq<Seq<char>>, head: Seq<char>, last: Seq<char>)
    requires
        whole == seq![head] + tail,
    ensures
        best_part(whole.push(last)) == (match best_part(whole) {
            Option::None => Option::Some(last),
            Option::Some(b) => if last.len() >= b.len() {
                Option::Some(last)
            } else {
                Option::Some(b)
            },
        }),
{
    assert(whole.push(last).drop_last() =~= whole);
    assert(whole.push(last).last() == last);
    assert(whole.len() >= 1);
}

/// A prepared chat-completion request.
pub struct LlmRequest {
    pub url: String,
    pub body: Json,
    pub auth_header: String,
    pub anthropic_auth: bool,
}

/// The endpoint a provider name selects.
pub open spec fn provider_url(p: Seq<char>) -> Option<Seq<char>> {
    if p == "openrouter"@ {
        Option::Some("https://openrouter.ai/api/v1/chat/completions"@)
    } else if p == "anthropic"@ {
        Option::Some("https://api.anthropic.com/v1/messages"@)
    } else if p == "openai"@ {
        Option::Some("https://api.openai.com/v1/chat/completions"@)
    } else {
        Option::None
    }
}

/// The chat-completion payload: model, messages, and the token ceiling.
pub open spec fn llm_body_of(model: Seq<char>, messages: JVal) -> JVal {
    JVal::Obj(
        seq![
            ("model"@, JVal::Str(model)),
            ("messages"@, messages),
            ("max_tokens"@, JVal::Int(4096)),
        ],
    )
}

/// Prepares a chat step: the input must carry `messages`, the API key must
/// have been found under the configured variable, and the provider must be
/// one of the three known shapes.
pub fn llm_prepare(input: &Json, llm: &LlmConfig, api_key: Option<String>) -> (r: Result<
    LlmRequest,
    String,
>)
    ensures
        input@.get("messages"@) is None ==> (r matches Result::Err(e) && e@
            == "messages required"@),
        input@.get("messages"@) is Some && api_key is None ==> (r matches Result::Err(e) && e@
            == "API key not found in env: "@ + llm.api_key_env@),
        input@.get("messages"@) is Some && api_key is Some && provider_url(llm.provider@) is None
            ==> (r matches Result::Err(e) && e@ == "Unknown provider: "@ + llm.provider@),
        input@.get("messages"@) matches Option::Some(msgs) ==> api_key matches Option::Some(key)
            ==> provider_url(llm.provider@) matches Option::Some(u) ==> (r matches Result::Ok(req)
            && req.url@ == u && req.body@ == llm_body_of(llm.model@, msgs) && req.anthropic_auth
            == (llm.provider@ == "anthropic"@) && req.auth_header@ == (if llm.provider@
            == "anthropic"@ {
            key@
        } else {
            "Bearer "@ + key@
        })),
{
    let messages: Json = match input.get("messages") {
        Option::Some(m) => m.deep_copy(),
        Option::None => {
            return Result::Err(String::from_str("messages required"));
        },
    };
    let key: String = match api_key {
        Option::Some(k) => k,
        Option::None => {
            let mut e = String::from_str("API key not found in env: ");
            e.append(llm.api_key_env.as_str());
            return Result::Err(e);
        },
    };
    let anthropic = crate::text::str_eq(llm.provider.as_str(), "anthropic");
    let url: String = if crate::text::str_eq(llm.provider.as_str(), "openrouter") {
        String::from_str("https://openrouter.ai/api/v1/chat/completions")
    } else if anthropic {
        String::from_str("https://api.anthropic.com/v1/messages")
    } else if crate::text::str_eq(llm.provider.as_str(), "openai") {
        String::from_str("https://api.openai.com/v1/chat/completions")
    } else {
        let mut e = String::from_str("Unknown provider: ");
        e.append(llm.provider.as_str());
        return Result::Err(e);
    };
    let auth_header: String = if anthropic {
        crate::json::copy_string(&key)
    } else {
        let mut h = String::from_str("Bearer ");
        h.append(key.as_str());
        h
    };
    let mut b = crate::json::ObjBuilder::new();
    b.add("model", Json::Str(crate::json::copy_string(&llm.model)));
    b.add("messages", messages);
    b.add("max_tokens", Json::Int(4096));
    let body = b.build();
    assert(body@->Obj_0 =~= llm_body_of(llm.model@, input@.get("messages"@)->0)->Obj_0);
    assert(body@ == llm_body_of(llm.model@, input@.get("messages"@)->0));
    Result::Ok(LlmRequest { url, body, auth_header, anthropic_auth: anthropic })
}

/// At most the first five hundred characters of a response body, as error
/// messages quote it.
pub open spec fn snippet_of(s: Seq<char>) -> Seq<char> {
    if s.len() <= 500 {
        s
    } else {
        s.subrange(0, 500)
    }
}

fn snippet_x(s: &str) -> (r: String)
    ensures
        r@ == snippet_of(s@),
{
    let cs = crate::text::str_to_chars(s);
    if cs.len() <= 500 {
        assert(cs@.subrange(0, cs@.len() as int) =~= cs@);
        return crate::json::copy_string(&String::from_str(s));
    }
    let mut out: Vec<char> = Vec::new();
    crate::text::push_range(&mut out, &cs, 0, 500);
    assert(out@ =~= s@.subrange(0, 500));
    crate::text::chars_to_string(&out)
}

/// The retry state of one chat call: attempts are 1-based, bounded by
/// `max_attempts`, with one optional switch to a fallback model after the
/// last attempt fails on a server-side error.
pub struct LlmSession {
    pub max_attempts: u32,
    pub attempt: u32,
    pub provider: String,
    pub model: String,
    pub fallback_model: Option<String>,
    pub fallback_used: bool,
}

/// What the driver must do next.
pub enum LlmAction {
    Retry { delay_ms: u64 },
    Fallback { model: String },
    Finish { result: ExecutorResult },
}

/// The executed output of a successful chat call.
pub open spec fn llm_output_of(parsed: JVal, model: Seq<char>, provider: Seq<char>) -> JVal {
    JVal::Obj(
        seq![
            ("content"@, JVal::Str(assistant_content(parsed, provider))),
            ("model"@, JVal::Str(model)),
            ("provider"@, JVal::Str(provider)),
            ("raw"@, parsed),
        ],
    )
}

impl LlmSession {
    /// A fresh session: three attempts against the configured model, with
    /// the fallback model available once they are exhausted.
    pub fn new(provider: String, model: String, fallback_model: Option<String>) -> (r: LlmSession)
        ensures
            r.max_attempts == 3u32,
            r.attempt == 1u32,
            r.provider@ == provider@,
            r.model@ == model@,
            r.fallback_model == fallback_model,
            !r.fallback_used,
    {
        LlmSession {
            max_attempts: 3,
            attempt: 1,
            provider,
            model,
            fallback_model,
            fallback_used: false,
        }
    }

    /// Whether a usable fallback remains: one is configured, differs from
    /// the current model, and has not been tried.
    pub open spec fn fallback_available(&self) -> bool {
        &&& !self.fallback_used
        &&& self.fallback_model matches Option::Some(f) && f@ != self.model@
    }

    /// Digests one provider response.  A server-side error retries with a
    /// linearly growing delay while attempts remain, then switches to the
    /// fallback model if one is available, then gives up; a client error
    /// gives up at once; a success is parsed and the assistant's reply
    /// extracted.
    pub fn on_response(&mut self, status: u16, body: &str, duration_ms: u64) -> (r: LlmAction)
        requires
            old(self).attempt >= 1,
        ensures
            final(self).max_attempts == old(self).max_attempts,
            final(self).provider == old(self).provider,
            final(self).fallback_model == old(self).fallback_model,
            r is Retry ==> (final(self).attempt == old(self).attempt + 1 && final(self).model
                == old(self).model && final(self).fallback_used == old(self).fallback_used),
            r is Fallback ==> (final(self).attempt == old(self).attempt && final(self).fallback_used),
            r is Finish ==> *final(self) == *old(self),
            old(self).fallback_used && status >= 400 ==> (r matches LlmAction::Finish { result }
                && result matches ExecutorResult::Error { error } && error@ == "LLM API error "@
                + crate::json_text::int_text(status as int) + " (fallback model "@
                + old(self).model@ + "): "@ + snippet_of(body@)),
            !old(self).fallback_used && status >= 500 && old(self).attempt < old(self).max_attempts
                ==> (r matches LlmAction::Retry { delay_ms } && delay_ms == 400 * (
            old(self).attempt as u64) && final(self).attempt == old(self).attempt + 1),
            !old(self).fallback_used && status >= 500 && old(self).attempt >= old(self).max_attempts && old(self).fallback_available() ==> (r matches LlmAction::Fallback {
                model,
            } && old(self).fallback_model matches Option::Some(f) && model@ == f@ && final(self).fallback_used && final(self).model@ == f@),
            !old(self).fallback_used && status >= 500 && old(self).attempt >= old(self).max_attempts && !old(self).fallback_available() ==> (r matches LlmAction::Finish {
                result,
            } && result matches ExecutorResult::Error { error } && error@ == "LLM API error "@
                + crate::json_text::int_text(status as int) + " after "@
                + crate::json_text::int_text(old(self).max_attempts as int) + " attempts: "@
                + snippet_of(body@)),
            !old(self).fallback_used && 400 <= status < 500 ==> (r matches LlmAction::Finish {
                result,
            } && result matches ExecutorResult::Error { error } && error@ == "LLM API error "@
                + crate::json_text::int_text(status as int) + ": "@ + snippet_of(body@)),
            status < 400 ==> (match crate::json_parse::parse_doc(body@) {
                Option::Some(parsed) => r matches LlmAction::Finish { result } && result matches
                    ExecutorResult::Executed { output, duration_ms: d } && d == duration_ms
                    && output@ == llm_output_of(parsed, old(self).model@, old(self).provider@),
                Option::None => r matches LlmAction::Finish { result } && result matches
                    ExecutorResult::Error { error } && error@ == (if old(self).fallback_used {
                    "Parse error (fallback): invalid JSON from provider"@
                } else {
                    "Parse error: invalid JSON from provider"@
                }),
            }),
    {
        if status >= 400 {
            if self.fallback_used {
                let code = crate::json_text::int_string(status as i64);
                let snip = snippet_x(body);
                let mut e = String::from_str("LLM API error ");
                e.append(code.as_str());
                e.append(" (fallback model ");
                e.append(self.model.as_str());
                e.append("): ");
                e.append(snip.as_str());
                return LlmAction::Finish { result: ExecutorResult::Error { error: e } };
            }
            if status >= 500 {
                if self.attempt < self.max_attempts {
                    let delay = 400u64 * (self.attempt as u64);
                    self.attempt = self.attempt + 1;
                    return LlmAction::Retry { delay_ms: delay };
                }
                let usable = match &self.fallback_model {
                    Option::Some(f) => !crate::text::str_eq(f.as_str(), self.model.as_str()),
                    Option::None => false,
                };
                if usable {
                    let f: String = match &self.fallback_model {
                        Option::Some(f) => crate::json::copy_string(f),
                        Option::None => String::new(),
                    };
                    self.fallback_used = true;
                    self.model = crate::json::copy_string(&f);
                    return LlmAction::Fallback { model: f };
                }
                let code = crate::json_text::int_string(status as i64);
                let ceiling = crate::json_text::int_string(self.max_attempts as i64);
                let snip = snippet_x(body);
                let mut e = String::from_str("LLM API error ");
                e.append(code.as_str());
                e.append(" after ");
                e.append(ceiling.as_str());
                e.append(" attempts: ");
                e.append(snip.as_str());
                return LlmAction::Finish { result: ExecutorResult::Error { error: e } };
            }
            let code = crate::json_text::int_string(status as i64);
            let snip = snippet_x(body);
            let mut e = String::from_str("LLM API error ");
            e.append(code.as_str());
            e.append(": ");
            e.append(snip.as_str());
            return LlmAction::Finish { result: ExecutorResult::Error { error: e } };
        }
        match crate::json_parse::parse_text(body) {
            Option::Some(parsed) => {
                let content = extract_assistant_content(&parsed, self.provider.as_str());
                let mut b = crate::json::ObjBuilder::new();
                b.add("content", Json::Str(content));
                b.add("model", Json::Str(crate::json::copy_string(&self.model)));
                b.add("provider", Json::Str(crate::json::copy_string(&self.provider)));
                b.add("raw", parsed);
                let output = b.build();
                assert(output@->Obj_0 =~= llm_output_of(
                    crate::json_parse::parse_doc(body@)->0,
                    self.model@,
                    self.provider@,
                )->Obj_0);
                assert(output@ == llm_output_of(
                    crate::json_parse::parse_doc(body@)->0,
                    self.model@,
                    self.provider@,
                ));
                LlmAction::Finish {
                    result: ExecutorResult::Executed { output, duration_ms },
                }
            },
            Option::None => {
                let e = if self.fallback_used {
                    String::from_str("Parse error (fallback): invalid JSON from provider")
                } else {
                    String::from_str("Parse error: invalid JSON from provider")
                };
                LlmAction::Finish { result: ExecutorResult::Error { error: e } }
            },
        }
    }

    /// Digests a transport failure: retry while attempts remain, give up
    /// with the last failure's message otherwise.
    pub fn on_transport_failure(&mut self, message: &str) -> (r: LlmAction)
        requires
            old(self).attempt >= 1,
        ensures
            final(self).max_attempts == old(self).max_attempts,
            final(self).provider == old(self).provider,
            final(self).model == old(self).model,
            final(self).fallback_model == old(self).fallback_model,
            final(self).fallback_used == old(self).fallback_used,
            r is Retry ==> final(self).attempt == old(self).attempt + 1,
            r is Finish ==> *final(self) == *old(self),
            old(self).fallback_used ==> (r matches LlmAction::Finish { result } && result matches
                ExecutorResult::Error { error } && error@ == "Fallback request failed: "@
                + message@),
            !old(self).fallback_used && old(self).attempt < old(self).max_attempts ==> (r matches
                LlmAction::Retry { delay_ms } && delay_ms == 400 * (old(self).attempt as u64)
                && final(self).attempt == old(self).attempt + 1),
            !old(self).fallback_used && old(self).attempt >= old(self).max_attempts ==> (r matches
                LlmAction::Finish { result } && result matches ExecutorResult::Error { error }
                && error@ == "LLM request failed on attempt "@ + crate::json_text::int_text(
                old(self).attempt as int,
            ) + ": "@ + message@),
    {
        if self.fallback_used {
            let mut e = String::from_str("Fallback request failed: ");
            e.append(message);
            return LlmAction::Finish { result: ExecutorResult::Error { error: e } };
        }
        if self.attempt < self.max_attempts {
            let delay = 400u64 * (self.attempt as u64);
            self.attempt = self.attempt + 1;
            return LlmAction::Retry { delay_ms: delay };
        }
        let n = crate::json_text::int_string(self.attempt as i64);
        let mut e = String::from_str("LLM request failed on attempt ");
        e.append(n.as_str());
        e.append(": ");
        e.append(message);
        LlmAction::Finish { result: ExecutorResult::Error { error: e } }
    }
}

/// The request body with its model swapped, as the fallback attempt sends
/// it.
pub fn swap_model(body: Json, model: &str) -> (r: Json)
    ensures
        body@ matches JVal::Obj(fs) ==> r@ == JVal::Obj(
            crate::json::fields_insert(fs, "model"@, JVal::Str(model@)),
        ),
{
    body.insert(String::from_str("model"), Json::Str(String::from_str(model)))
}

} // verus!
