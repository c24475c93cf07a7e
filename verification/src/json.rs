//! The JSON documents the engine works on.
//!
//! Step input templates, step outputs, merged workflow inputs and receipts are
//! all JSON-shaped.  [`Json`] is the runtime representation; [`JVal`] is its
//! mathematical model, used by every contract in the crate.
//!
//! Two deliberate simplifications against full JSON: numbers are 64-bit
//! integers, and object fields keep their insertion order (with unique keys)
//! rather than living in a search tree.

use vstd::prelude::*;
use vstd::string::*;

use crate::text::str_eq;

verus! {

/// Mathematical model of a JSON value.
#[verifier::ext_equal]
pub enum JVal {
    Null,
    Bool(bool),
    Int(int),
    Str(Seq<char>),
    Arr(Seq<JVal>),
    Obj(Seq<(Seq<char>, JVal)>),
}

/// A JSON value as the engine holds it at runtime.
pub enum Json {
    Null,
    Bool(bool),
    Int(i64),
    Str(String),
    Arr(Vec<Json>),
    Obj(Vec<(String, Json)>),
}

impl View for Json {
    type V = JVal;

    open spec fn view(&self) -> JVal
        decreases self,
    {
        match self {
            Json::Null => JVal::Null,
            Json::Bool(b) => JVal::Bool(*b),
            Json::Int(i) => JVal::Int(*i as int),
            Json::Str(s) => JVal::Str(s@),
            Json::Arr(items) => JVal::Arr(
                Seq::new(items@.len(), |i: int| if 0 <= i < items@.len() {
                    items@[i]@
                } else {
                    JVal::Null
                }),
            ),
            Json::Obj(fields) => JVal::Obj(
                Seq::new(fields@.len(), |i: int| (fields@[i].0@, if 0 <= i < fields@.len() {
                    fields@[i].1@
                } else {
                    JVal::Null
                })),
            ),
        }
    }
}

/// First value bound to `key` in a field sequence, if any.
pub open spec fn fields_lookup(fields: Seq<(Seq<char>, JVal)>, key: Seq<char>) -> Option<JVal>
    decreases fields.len(),
{
    if fields.len() == 0 {
        Option::None
    } else if fields[0].0 == key {
        Option::Some(fields[0].1)
    } else {
        fields_lookup(fields.drop_first(), key)
    }
}

impl JVal {
    /// Field access: defined only on objects, as in the engine's path walks.
    pub open spec fn get(self, key: Seq<char>) -> Option<JVal> {
        match self {
            JVal::Obj(fields) => fields_lookup(fields, key),
            _ => Option::None,
        }
    }

    /// Well-formed: every object, at any depth, has pairwise distinct keys.
    pub open spec fn wf(self) -> bool
        decreases self,
    {
        match self {
            JVal::Arr(items) => forall|i: int| 0 <= i < items.len() ==> #[trigger] items[i].wf(),
            JVal::Obj(fields) => {
                &&& forall|i: int, j: int|
                    0 <= i < j < fields.len() ==> (#[trigger] fields[i].0) != (#[trigger] fields[j].0)
                &&& forall|i: int| 0 <= i < fields.len() ==> (#[trigger] fields[i].1).wf()
            },
            _ => true,
        }
    }
}

/// Truthiness of a condition value: JSON `false`, `null`, the empty string
/// and zero are falsy; everything else is truthy.
pub open spec fn truthy(v: JVal) -> bool {
    match v {
        JVal::Null => false,
        JVal::Bool(b) => b,
        JVal::Int(i) => i != 0,
        JVal::Str(s) => s.len() > 0,
        _ => true,
    }
}

/// `fields` with `key` bound to `val`: replaces the value in place if the key
/// is present, appends the pair otherwise.
pub open spec fn fields_insert(
    fields: Seq<(Seq<char>, JVal)>,
    key: Seq<char>,
    val: JVal,
) -> Seq<(Seq<char>, JVal)>
    decreases fields.len(),
{
    if fields.len() == 0 {
        seq![(key, val)]
    } else if fields[0].0 == key {
        seq![(key, val)] + fields.drop_first()
    } else {
        seq![fields[0]] + fields_insert(fields.drop_first(), key, val)
    }
}

pub proof fn lemma_fields_insert_found(
    fields: Seq<(Seq<char>, JVal)>,
    key: Seq<char>,
    val: JVal,
    i: int,
)
    requires
        0 <= i < fields.len(),
        fields[i].0 == key,
        forall|j: int| 0 <= j < i ==> (#[trigger] fields[j].0) != key,
    ensures
        fields_insert(fields, key, val) =~= fields.update(i, (key, val)),
    decreases fields.len(),
{
    if i == 0 {
        assert(seq![(key, val)] + fields.drop_first() =~= fields.update(0, (key, val)));
    } else {
        lemma_fields_insert_found(fields.drop_first(), key, val, i - 1);
        assert(seq![fields[0]] + fields.drop_first().update(i - 1, (key, val)) =~= fields.update(
            i,
            (key, val),
        ));
    }
}

pub proof fn lemma_fields_insert_missing(fields: Seq<(Seq<char>, JVal)>, key: Seq<char>, val: JVal)
    requires
        forall|j: int| 0 <= j < fields.len() ==> (#[trigger] fields[j].0) != key,
    ensures
        fields_insert(fields, key, val) =~= fields.push((key, val)),
    decreases fields.len(),
{
    if fields.len() > 0 {
        lemma_fields_insert_missing(fields.drop_first(), key, val);
        assert(seq![fields[0]] + fields.drop_first().push((key, val)) =~= fields.push((key, val)));
    }
}

impl Json {
    /// A structurally equal copy; spelled out because a derived `Clone` says
    /// nothing to the verifier.
    pub fn deep_copy(&self) -> (r: Json)
        ensures
            r@ == self@,
        decreases self,
    {
        match self {
            Json::Null => Json::Null,
            Json::Bool(b) => Json::Bool(*b),
            Json::Int(i) => Json::Int(*i),
            Json::Str(s) => Json::Str(copy_string(s)),
            Json::Arr(items) => {
                let mut out: Vec<Json> = Vec::new();
                let mut i: usize = 0;
                while i < items.len()
                    invariant
                        i <= items.len(),
                        out@.len() == i,
                        forall|j: int| 0 <= j < i ==> (#[trigger] out@[j])@ == items@[j]@,
                    decreases items.len() - i,
                {
                    out.push(items[i].deep_copy());
                    i = i + 1;
                }
                let r = Json::Arr(out);
                assert(r@->Arr_0 =~= self@->Arr_0);
                r
            },
            Json::Obj(fields) => {
                let mut out: Vec<(String, Json)> = Vec::new();
                let mut i: usize = 0;
                while i < fields.len()
                    invariant
                        i <= fields.len(),
                        out@.len() == i,
                        forall|j: int| 0 <= j < i ==> (#[trigger] out@[j]).0@ == fields@[j].0@
                            && out@[j].1@ == fields@[j].1@,
                    decreases fields.len() - i,
                {
                    let pair = &fields[i];
                    out.push((copy_string(&pair.0), pair.1.deep_copy()));
                    i = i + 1;
                }
                let r = Json::Obj(out);
                assert(r@->Obj_0 =~= self@->Obj_0);
                r
            },
        }
    }

    /// The first value bound to `key`, when this is an object holding it.
    pub fn get<'a>(&'a self, key: &str) -> (r: Option<&'a Json>)
        ensures
            match r {
                Option::Some(v) => self@.get(key@) == Option::Some(v@),
                Option::None => self@.get(key@) is None,
            },
            r matches Option::Some(v) ==> (*self matches Json::Obj(fields) && exists|i: int|
                0 <= i < fields@.len() && (#[trigger] fields@[i]).1 == *v),
    {
        match self {
            Json::Obj(fields) => {
                let ghost fs = self@->Obj_0;
                let mut i: usize = 0;
                assert(fs.subrange(0, fs.len() as int) =~= fs);
                while i < fields.len()
                    invariant
                        i <= fields.len(),
                        fs == self@->Obj_0,
                        self@ is Obj,
                        fs.len() == fields@.len(),
                        forall|j: int| 0 <= j < fields@.len() ==> (#[trigger] fs[j]) == (
                        fields@[j].0@,
                        fields@[j].1@,
                        ),
                        fields_lookup(fs.subrange(i as int, fs.len() as int), key@)
                            == fields_lookup(fs, key@),
                    decreases fields.len() - i,
                {
                    let ghost rest = fs.subrange(i as int, fs.len() as int);
                    if str_eq(fields[i].0.as_str(), key) {
                        assert(fields_lookup(rest, key@) == Option::Some(fs[i as int].1));
                        return Option::Some(&fields[i].1);
                    }
                    assert(rest.drop_first() =~= fs.subrange(i + 1 as int, fs.len() as int));
                    i = i + 1;
                }
                assert(fields_lookup(fs.subrange(fs.len() as int, fs.len() as int), key@) is None);
                Option::None
            },
            _ => Option::None,
        }
    }

    /// Binds `key` to `val` when this is an object; other values are
    /// returned unchanged.
    pub fn insert(self, key: String, val: Json) -> (r: Json)
        ensures
            self@ matches JVal::Obj(fs) ==> r@ == JVal::Obj(fields_insert(fs, key@, val@)),
            !(self@ is Obj) ==> r@ == self@,
    {
        let ghost old_self = self@;
        match self {
            Json::Obj(mut fields) => {
                let ghost fs = old_self->Obj_0;
                let mut i: usize = 0;
                while i < fields.len()
                    invariant
                        i <= fields.len(),
                        fs.len() == fields@.len(),
                        forall|j: int| 0 <= j < fields@.len() ==> (#[trigger] fs[j]) == (
                        fields@[j].0@,
                        fields@[j].1@,
                        ),
                        forall|j: int| 0 <= j < i ==> (#[trigger] fs[j]).0 != key@,
                    decreases fields.len() - i,
                {
                    if str_eq(fields[i].0.as_str(), key.as_str()) {
                        proof {
                            lemma_fields_insert_found(fs, key@, val@, i as int);
                        }
                        fields[i] = (key, val);
                        let r = Json::Obj(fields);
                        assert(r@->Obj_0 =~= fs.update(i as int, (key@, val@)));
                        return r;
                    }
                    i = i + 1;
                }
                proof {
                    lemma_fields_insert_missing(fs, key@, val@);
                }
                fields.push((key, val));
                let r = Json::Obj(fields);
                assert(r@->Obj_0 =~= fs.push((key@, val@)));
                r
            },
            other => other,
        }
    }

    /// Truthiness, as the condition evaluator sees it.
    pub fn is_truthy(&self) -> (r: bool)
        ensures
            r == truthy(self@),
    {
        match self {
            Json::Null => false,
            Json::Bool(b) => *b,
            Json::Int(i) => *i != 0,
            Json::Str(s) => s.as_str().unicode_len() > 0,
            _ => true,
        }
    }
}

/// The models of a vector of values.
pub open spec fn jvals_of(items: Seq<Json>) -> Seq<JVal> {
    Seq::new(items.len(), |i: int| items[i]@)
}

/// The models of a vector of fields.
pub open spec fn jfields_of(fields: Seq<(String, Json)>) -> Seq<(Seq<char>, JVal)> {
    Seq::new(fields.len(), |i: int| (fields[i].0@, fields[i].1@))
}

/// An array value from its elements.
pub fn json_arr(items: Vec<Json>) -> (r: Json)
    ensures
        r@ == JVal::Arr(jvals_of(items@)),
{
    let ghost iv = items@;
    let r = Json::Arr(items);
    assert(r@->Arr_0 =~= jvals_of(iv));
    assert(r@ == JVal::Arr(jvals_of(iv)));
    r
}

/// An object value, built one field at a time.
pub struct ObjBuilder {
    pub fields: Vec<(String, Json)>,
}

impl ObjBuilder {
    /// The fields collected so far.
    pub open spec fn model(&self) -> Seq<(Seq<char>, JVal)> {
        jfields_of(self.fields@)
    }

    pub fn new() -> (r: ObjBuilder)
        ensures
            r.model() == Seq::<(Seq<char>, JVal)>::empty(),
    {
        let r = ObjBuilder { fields: Vec::new() };
        assert(r.model() =~= Seq::<(Seq<char>, JVal)>::empty());
        r
    }

    /// Appends one field.
    pub fn add(&mut self, key: &str, v: Json)
        ensures
            final(self).model() == old(self).model().push((key@, v@)),
    {
        let ghost m0 = self.model();
        let ghost vv = v@;
        self.fields.push((String::from_str(key), v));
        assert(self.model() =~= m0.push((key@, vv)));
    }

    /// The finished object.
    pub fn build(self) -> (r: Json)
        ensures
            r@ == JVal::Obj(self.model()),
    {
        let ghost m = self.model();
        let r = Json::Obj(self.fields);
        assert(r@->Obj_0 =~= m);
        assert(r@ == JVal::Obj(m));
        r
    }
}

/// A fresh `String` with the same characters.
pub fn copy_string(s: &String) -> (r: String)
    ensures
        r@ == s@,
{
    String::from_str(s.as_str())
}

} // verus!
