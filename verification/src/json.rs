use vstd::prelude::*;

use crate::text::{owned, str_eq};

verus! {

broadcast use {
    vstd::std_specs::vec::axiom_vec_decreases_to_view,
    vstd::seq::axiom_seq_index_decreases,
};

/// A JSON value as the library reads and builds it.
///
/// Numbers that fit an `i64` are `Int`; every other number (a fraction, an
/// exponent, an integer beyond `i64`) is kept as its decimal text in `Num`.
/// An object is its list of fields in order.
#[derive(Debug, PartialEq)]
pub enum Json {
    Null,
    Bool(bool),
    Int(i64),
    Num(String),
    Str(String),
    Array(Vec<Json>),
    Object(Vec<(String, Json)>),
}

/// The mathematical model of a JSON value.
#[verifier::ext_equal]
pub enum JsonV {
    Null,
    Bool(bool),
    Int(int),
    Num(Seq<char>),
    Str(Seq<char>),
    Array(Seq<JsonV>),
    Object(Seq<(Seq<char>, JsonV)>),
}

impl Json {
    /// The model of a value: texts as character sequences, items and
    /// fields modelled one by one.
    pub open spec fn view_json(&self) -> JsonV
        decreases self,
    {
        match self {
            Json::Null => JsonV::Null,
            Json::Bool(b) => JsonV::Bool(*b),
            Json::Int(n) => JsonV::Int(*n as int),
            Json::Num(s) => JsonV::Num(s@),
            Json::Str(s) => JsonV::Str(s@),
            Json::Array(v) => JsonV::Array(
                Seq::new(
                    v@.len(),
                    |i: int|
                        if 0 <= i < v@.len() {
                            v@[i].view_json()
                        } else {
                            JsonV::Null
                        },
                ),
            ),
            Json::Object(v) => JsonV::Object(
                Seq::new(
                    v@.len(),
                    |i: int|
                        if 0 <= i < v@.len() {
                            (v@[i].0@, v@[i].1.view_json())
                        } else {
                            (Seq::empty(), JsonV::Null)
                        },
                ),
            ),
        }
    }
}

impl View for Json {
    type V = JsonV;

    open spec fn view(&self) -> JsonV {
        self.view_json()
    }
}

/// The model of a list of object fields.
pub open spec fn fields_view(v: Seq<(String, Json)>) -> Seq<(Seq<char>, JsonV)> {
    Seq::new(v.len(), |i: int| (v[i].0@, v[i].1@))
}

/// The model of a list of values.
pub open spec fn items_view(v: Seq<Json>) -> Seq<JsonV> {
    Seq::new(v.len(), |i: int| v[i]@)
}

/// The model of an object is the model of its fields.
pub proof fn lemma_object_view(v: Vec<(String, Json)>)
    ensures
        Json::Object(v)@ == JsonV::Object(fields_view(v@)),
{
    let a = fields_view(v@);
    let j = Json::Object(v);
    assert(j@ == j.view_json());
    if let JsonV::Object(b) = j@ {
        assert(a =~= b);
    }
}

/// The model of an array is the model of its items.
pub proof fn lemma_array_view(v: Vec<Json>)
    ensures
        Json::Array(v)@ == JsonV::Array(items_view(v@)),
{
    let a = items_view(v@);
    let j = Json::Array(v);
    assert(j@ == j.view_json());
    if let JsonV::Array(b) = j@ {
        assert(a =~= b);
    }
}

/// The value of the first field named `k`, if any.
pub open spec fn field_get(f: Seq<(Seq<char>, JsonV)>, k: Seq<char>) -> Option<JsonV>
    decreases f.len(),
{
    if f.len() == 0 {
        None
    } else if f[0].0 == k {
        Some(f[0].1)
    } else {
        field_get(f.drop_first(), k)
    }
}

/// `f` with the first field named `k` given the value `v`, or with the
/// field `(k, v)` added at the end when no field has that name.
pub open spec fn field_set(f: Seq<(Seq<char>, JsonV)>, k: Seq<char>, v: JsonV) -> Seq<
    (Seq<char>, JsonV),
>
    decreases f.len(),
{
    if f.len() == 0 {
        seq![(k, v)]
    } else if f[0].0 == k {
        f.update(0, (k, v))
    } else {
        seq![f[0]] + field_set(f.drop_first(), k, v)
    }
}

impl JsonV {
    /// `Value::get` with a key: the field of an object, `None` otherwise.
    pub open spec fn get(self, k: Seq<char>) -> Option<JsonV> {
        match self {
            JsonV::Object(f) => field_get(f, k),
            _ => None,
        }
    }

    /// `Value::as_str`.
    pub open spec fn as_str(self) -> Option<Seq<char>> {
        match self {
            JsonV::Str(s) => Some(s),
            _ => None,
        }
    }

    /// `Value::as_i64`.
    pub open spec fn as_i64(self) -> Option<int> {
        match self {
            JsonV::Int(n) => Some(n),
            _ => None,
        }
    }

    /// The string field `k`, if present and a string.
    pub open spec fn str_field(self, k: Seq<char>) -> Option<Seq<char>> {
        match self.get(k) {
            Some(x) => x.as_str(),
            None => None,
        }
    }

    /// The integer field `k`, if present and an `i64`.
    pub open spec fn int_field(self, k: Seq<char>) -> Option<int> {
        match self.get(k) {
            Some(x) => x.as_i64(),
            None => None,
        }
    }
}

/// An `Option<Seq<char>>` with `default` in place of `None`.
pub open spec fn or_text(o: Option<Seq<char>>, default: Seq<char>) -> Seq<char> {
    match o {
        Some(s) => s,
        None => default,
    }
}

proof fn lemma_field_get_step(f: Seq<(Seq<char>, JsonV)>, i: int, k: Seq<char>)
    requires
        0 <= i < f.len(),
        f[i].0 != k,
    ensures
        field_get(f.subrange(i, f.len() as int), k) == field_get(f.subrange(i + 1, f.len() as int), k),
{
    assert(f.subrange(i, f.len() as int).drop_first() =~= f.subrange(i + 1, f.len() as int));
}

/// The value of a field is the one at the first place its name occurs.
pub proof fn lemma_field_get_at(f: Seq<(Seq<char>, JsonV)>, i: int, k: Seq<char>)
    requires
        0 <= i < f.len(),
        f[i].0 == k,
        forall|j: int| 0 <= j < i ==> f[j].0 != k,
    ensures
        field_get(f, k) == Some(f[i].1),
    decreases i,
{
    if i > 0 {
        assert(f[0].0 != k);
        lemma_field_get_at(f.drop_first(), i - 1, k);
    }
}

/// Looking a name up in fields with one more at the end: the earlier
/// fields first, then the new one.
pub proof fn lemma_field_get_push(f: Seq<(Seq<char>, JsonV)>, e: (Seq<char>, JsonV), k: Seq<char>)
    ensures
        field_get(f.push(e), k) == match field_get(f, k) {
            Some(x) => Some(x),
            None => if e.0 == k {
                Some(e.1)
            } else {
                None
            },
        },
    decreases f.len(),
{
    let g = f.push(e);
    if f.len() > 0 {
        assert(g[0] == f[0]);
        assert(g.drop_first() =~= f.drop_first().push(e));
        lemma_field_get_push(f.drop_first(), e, k);
        if f[0].0 != k {
            assert(field_get(g, k) == field_get(g.drop_first(), k));
            assert(field_get(f, k) == field_get(f.drop_first(), k));
        }
    } else {
        assert(g[0] == e);
        let empty = Seq::<(Seq<char>, JsonV)>::empty();
        assert(g.drop_first() =~= empty);
        assert(field_get(empty, k) is None);
        assert(field_get(f, k) is None);
    }
}

/// Index of the first field named `key`, or the length when there is none.
fn find_field(v: &Vec<(String, Json)>, key: &str) -> (r: usize)
    ensures
        r <= v@.len(),
        r < v@.len() ==> v@[r as int].0@ == key@,
        forall|j: int| 0 <= j < r ==> v@[j].0@ != key@,
        r < v@.len() ==> field_get(fields_view(v@), key@) == Some(v@[r as int].1@),
        r == v@.len() ==> field_get(fields_view(v@), key@) is None,
{
    let ghost f = fields_view(v@);
    let mut i: usize = 0;
    proof {
        assert(f.subrange(0, f.len() as int) =~= f);
    }
    while i < v.len()
        invariant
            f == fields_view(v@),
            i <= v@.len(),
            forall|j: int| 0 <= j < i ==> v@[j].0@ != key@,
            field_get(f, key@) == field_get(f.subrange(i as int, f.len() as int), key@),
        decreases v@.len() - i,
    {
        if str_eq(v[i].0.as_str(), key) {
            return i;
        }
        proof {
            lemma_field_get_step(f, i as int, key@);
        }
        i = i + 1;
    }
    i
}

impl Json {
    /// A JSON string with the characters of `s`.
    pub fn text(s: &str) -> (r: Json)
        ensures
            r@ == JsonV::Str(s@),
    {
        Json::Str(owned(s))
    }

    /// `Value::get` with a key.
    pub fn get<'a>(&'a self, key: &str) -> (r: Option<&'a Json>)
        ensures
            r is None <==> self@.get(key@) is None,
            r matches Some(x) ==> self@.get(key@) == Some(x@),
    {
        match self {
            Json::Object(v) => {
                proof {
                    lemma_object_view(*v);
                }
                let i = find_field(v, key);
                if i < v.len() {
                    Some(&v[i].1)
                } else {
                    None
                }
            },
            _ => None,
        }
    }

    /// `Value::as_str`.
    pub fn as_str(&self) -> (r: Option<&String>)
        ensures
            r is None <==> self@.as_str() is None,
            r matches Some(s) ==> self@.as_str() == Some(s@),
    {
        match self {
            Json::Str(s) => Some(s),
            _ => None,
        }
    }

    /// `Value::as_i64`.
    pub fn as_i64(&self) -> (r: Option<i64>)
        ensures
            r is None <==> self@.as_i64() is None,
            r matches Some(n) ==> self@.as_i64() == Some(n as int),
    {
        match self {
            Json::Int(n) => Some(*n),
            _ => None,
        }
    }

    /// The string field `key`, if present and a string.
    pub fn str_field(&self, key: &str) -> (r: Option<String>)
        ensures
            r is None <==> self@.str_field(key@) is None,
            r matches Some(s) ==> self@.str_field(key@) == Some(s@),
    {
        match self.get(key) {
            Some(x) => match x.as_str() {
                Some(s) => Some(owned(s.as_str())),
                None => None,
            },
            None => None,
        }
    }

    /// The integer field `key`, if present and an `i64`.
    pub fn int_field(&self, key: &str) -> (r: Option<i64>)
        ensures
            r is None <==> self@.int_field(key@) is None,
            r matches Some(n) ==> self@.int_field(key@) == Some(n as int),
    {
        match self.get(key) {
            Some(x) => x.as_i64(),
            None => None,
        }
    }

    /// A copy of the value.
    #[verifier::loop_isolation(false)]
    pub fn deep_clone(&self) -> (r: Json)
        ensures
            r@ == self@,
        decreases self,
    {
        match self {
            Json::Null => Json::Null,
            Json::Bool(b) => Json::Bool(*b),
            Json::Int(n) => Json::Int(*n),
            Json::Num(s) => Json::Num(owned(s.as_str())),
            Json::Str(s) => Json::Str(owned(s.as_str())),
            Json::Array(v) => {
                let mut out: Vec<Json> = Vec::new();
                let mut i: usize = 0;
                while i < v.len()
                    invariant
                        i <= v@.len(),
                        out@.len() == i,
                        forall|j: int| 0 <= j < i ==> out@[j]@ == v@[j]@,
                    decreases v@.len() - i,
                {
                    proof {
                        assert(decreases_to!(*v => v@));
                        assert(decreases_to!(v@ => v@[i as int]));
                    }
                    let c = v[i].deep_clone();
                    out.push(c);
                    i = i + 1;
                }
                let r = Json::Array(out);
                proof {
                    lemma_array_view(out);
                    lemma_array_view(*v);
                    assert(items_view(out@) =~= items_view(v@));
                }
                r
            },
            Json::Object(v) => {
                let mut out: Vec<(String, Json)> = Vec::new();
                let mut i: usize = 0;
                while i < v.len()
                    invariant
                        i <= v@.len(),
                        out@.len() == i,
                        forall|j: int| 0 <= j < i ==> out@[j].0@ == v@[j].0@ && out@[j].1@ == v@[j].1@,
                    decreases v@.len() - i,
                {
                    proof {
                        assert(decreases_to!(*v => v@));
                        assert(decreases_to!(v@ => v@[i as int]));
                        assert(decreases_to!(v@[i as int] => v@[i as int].1));
                    }
                    let c = v[i].1.deep_clone();
                    let k = owned(v[i].0.as_str());
                    out.push((k, c));
                    i = i + 1;
                }
                let r = Json::Object(out);
                proof {
                    lemma_object_view(out);
                    lemma_object_view(*v);
                    assert(fields_view(out@) =~= fields_view(v@));
                }
                r
            },
        }
    }
}

proof fn lemma_field_set_prefix(f: Seq<(Seq<char>, JsonV)>, k: Seq<char>, v: JsonV, i: int)
    requires
        0 <= i <= f.len(),
        forall|j: int| 0 <= j < i ==> f[j].0 != k,
    ensures
        field_set(f, k, v) == f.subrange(0, i) + field_set(f.subrange(i, f.len() as int), k, v),
    decreases i,
{
    if i > 0 {
        let g = f.drop_first();
        assert forall|j: int| 0 <= j < i - 1 implies g[j].0 != k by {
            assert(g[j] == f[j + 1]);
        }
        lemma_field_set_prefix(g, k, v, i - 1);
        assert(g.subrange(i - 1, g.len() as int) =~= f.subrange(i, f.len() as int));
        assert(f.subrange(0, i) =~= seq![f[0]] + g.subrange(0, i - 1));
    } else {
        assert(f.subrange(0, 0) + field_set(f.subrange(0, f.len() as int), k, v) =~= field_set(
            f,
            k,
            v,
        )) by {
            assert(f.subrange(0, f.len() as int) =~= f);
        }
    }
}

/// Gives the field `key` the value `val` (`Map::insert` on an object).
pub fn set_field(fields: &mut Vec<(String, Json)>, key: String, val: Json)
    ensures
        fields_view(final(fields)@) == field_set(fields_view(old(fields)@), key@, val@),
{
    let ghost f0 = fields_view(fields@);
    let i = find_field(fields, key.as_str());
    proof {
        lemma_field_set_prefix(f0, key@, val@, i as int);
    }
    if i < fields.len() {
        let ghost kv = key@;
        let ghost vv = val@;
        fields.set(i, (key, val));
        proof {
            let tail = f0.subrange(i as int, f0.len() as int);
            assert(tail[0].0 == kv);
            assert(field_set(tail, kv, vv) == tail.update(0, (kv, vv)));
            assert(fields_view(fields@) =~= f0.subrange(0, i as int) + tail.update(0, (kv, vv)));
        }
    } else {
        let ghost kv = key@;
        let ghost vv = val@;
        fields.push((key, val));
        proof {
            let tail = f0.subrange(i as int, f0.len() as int);
            assert(tail.len() == 0);
            assert(fields_view(fields@) =~= f0.subrange(0, i as int) + seq![(kv, vv)]);
        }
    }
}

/// Reading a field back after setting it gives the value set.
pub proof fn lemma_get_after_set(f: Seq<(Seq<char>, JsonV)>, k: Seq<char>, v: JsonV)
    ensures
        field_get(field_set(f, k, v), k) == Some(v),
    decreases f.len(),
{
    if f.len() > 0 && f[0].0 != k {
        lemma_get_after_set(f.drop_first(), k, v);
        assert((seq![f[0]] + field_set(f.drop_first(), k, v)).drop_first() =~= field_set(
            f.drop_first(),
            k,
            v,
        ));
    }
}

/// Setting a field leaves every other field as it was.
pub proof fn lemma_get_other_after_set(f: Seq<(Seq<char>, JsonV)>, k: Seq<char>, v: JsonV, k2: Seq<char>)
    requires
        k2 != k,
    ensures
        field_get(field_set(f, k, v), k2) == field_get(f, k2),
    decreases f.len(),
{
    if f.len() > 0 {
        if f[0].0 == k {
            assert(f.update(0, (k, v)).drop_first() =~= f.drop_first());
        } else {
            lemma_get_other_after_set(f.drop_first(), k, v, k2);
            assert((seq![f[0]] + field_set(f.drop_first(), k, v)).drop_first() =~= field_set(
                f.drop_first(),
                k,
                v,
            ));
        }
    } else {
        let s = seq![(k, v)];
        assert(s.drop_first() =~= Seq::<(Seq<char>, JsonV)>::empty());
        assert(field_get(s.drop_first(), k2) is None);
    }
}

} // verus!
