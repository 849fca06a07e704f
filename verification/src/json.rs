//! JSON values.
use vstd::prelude::*;
use crate::strmap::StrMap;
use crate::text::str_eq;
use crate::strmap;

verus! {

/// A JSON number. A float is kept as its decimal text.
#[derive(Debug)]
pub enum Number {
    PosInt(u64),
    NegInt(i64),
    Float(String),
}

/// A JSON value.
#[derive(Debug)]
pub enum JsonValue {
    Null,
    Bool(bool),
    Number(Number),
    String(String),
    Array(Vec<JsonValue>),
    Object(StrMap<JsonValue>),
}

/// Mathematical JSON values: an object is a finite map from names to values.
#[verifier::ext_equal]
pub enum Json {
    Null,
    Bool(bool),
    PosInt(int),
    NegInt(int),
    Float(Seq<char>),
    Str(Seq<char>),
    Arr(Seq<Json>),
    Obj(Map<Seq<char>, Json>),
}

pub closed spec fn json_view(v: JsonValue) -> Json
    decreases v,
{
    match v {
        JsonValue::Null => Json::Null,
        JsonValue::Bool(b) => Json::Bool(b),
        JsonValue::Number(n) => number_view(n),
        JsonValue::String(s) => Json::Str(s@),
        JsonValue::Array(a) => Json::Arr(list_json(a@)),
        JsonValue::Object(m) => Json::Obj(strmap::pairs_to_map(entries_json(m.entries@))),
    }
}

closed spec fn list_json(s: Seq<JsonValue>) -> Seq<Json>
    decreases s,
{
    Seq::new(
        s.len(),
        |i: int|
            if 0 <= i < s.len() {
                json_view(s[i])
            } else {
                Json::Null
            },
    )
}

closed spec fn entries_json(s: Seq<(String, JsonValue)>) -> Seq<(Seq<char>, Json)>
    decreases s,
{
    Seq::new(
        s.len(),
        |i: int|
            if 0 <= i < s.len() {
                (s[i].0@, json_view(s[i].1))
            } else {
                (Seq::empty(), Json::Null)
            },
    )
}

/// The mathematical value of a number.
pub open spec fn number_view(n: Number) -> Json {
    match n {
        Number::PosInt(x) => Json::PosInt(x as int),
        Number::NegInt(x) => if x < 0 {
            Json::NegInt(x as int)
        } else {
            Json::PosInt(x as int)
        },
        Number::Float(t) => Json::Float(t@),
    }
}

impl View for JsonValue {
    type V = Json;

    open spec fn view(&self) -> Json {
        json_view(*self)
    }
}


/// The mathematical values of a list.
pub open spec fn values_view(s: Seq<JsonValue>) -> Seq<Json> {
    Seq::new(s.len(), |i: int| s[i]@)
}

/// The mathematical map of an object.
pub open spec fn object_view(m: StrMap<JsonValue>) -> Map<Seq<char>, Json> {
    strmap::pairs_to_map(pairs_view(m.pairs()))
}

/// The pairs of an object with their mathematical values.
pub open spec fn pairs_view(p: Seq<(Seq<char>, JsonValue)>) -> Seq<(Seq<char>, Json)> {
    Seq::new(p.len(), |i: int| (p[i].0, p[i].1@))
}

/// The mathematical value of each kind of JSON value.
pub broadcast proof fn lemma_value_view(v: JsonValue)
    ensures
        #[trigger] json_view(v) == match v {
            JsonValue::Null => Json::Null,
            JsonValue::Bool(b) => Json::Bool(b),
            JsonValue::Number(n) => number_view(n),
            JsonValue::String(s) => Json::Str(s@),
            JsonValue::Array(a) => Json::Arr(values_view(a@)),
            JsonValue::Object(m) => Json::Obj(object_view(m)),
        },
{
    match v {
        JsonValue::Array(a) => {
            assert(list_json(a@) =~= values_view(a@));
        },
        JsonValue::Object(m) => {
            m.lemma_pairs();
            assert(entries_json(m.entries@) =~= pairs_view(m.pairs()));
        },
        _ => {},
    }
}

/// Where keys are unique, the value that an object holds under a key is the
/// value of its entry.
pub proof fn lemma_object_view(m: StrMap<JsonValue>)
    requires
        strmap::unique_keys(m.pairs()),
    ensures
        strmap::unique_keys(pairs_view(m.pairs())),
        object_view(m).dom() == m@.dom(),
        forall|k: Seq<char>| #[trigger] m@.contains_key(k) ==> object_view(m)[k] == m@[k]@,
        forall|i: int| 0 <= i < m.pairs().len() ==> object_view(m).contains_key((#[trigger] m.pairs()[i]).0)
            && object_view(m)[m.pairs()[i].0] == m.pairs()[i].1@,
{
    let p = m.pairs();
    let q = pairs_view(p);
    assert forall|i: int, j: int|
        0 <= i < q.len() && 0 <= j < q.len() && (#[trigger] q[i]).0 == (#[trigger] q[j]).0 implies i == j by {
        assert(p[i].0 == p[j].0);
    }
    assert forall|k: Seq<char>| strmap::has_key(p, k) == strmap::has_key(q, k) by {
        if strmap::has_key(p, k) {
            assert(q[strmap::key_index(p, k)].0 == k);
        }
        if strmap::has_key(q, k) {
            assert(p[strmap::key_index(q, k)].0 == k);
        }
    }
    assert(object_view(m).dom() =~= m@.dom());
    assert forall|k: Seq<char>| #[trigger] m@.contains_key(k) implies object_view(m)[k] == m@[k]@ by {
        let i = strmap::key_index(p, k);
        strmap::lemma_pair_in_map(p, i);
        strmap::lemma_pair_in_map(q, i);
    }
    assert forall|i: int| 0 <= i < p.len() implies object_view(m).contains_key((#[trigger] p[i]).0)
        && object_view(m)[p[i].0] == p[i].1@ by {
        strmap::lemma_pair_in_map(q, i);
        assert(q[i] == (p[i].0, p[i].1@));
    }
}

/// Setting an entry of an object sets it in the mathematical map.
pub fn put(m: &mut StrMap<JsonValue>, k: &str, v: JsonValue)
    ensures
        object_view(*final(m)) == object_view(*old(m)).insert(k@, v@),
{
    let n = m.len();
    let ghost before = *m;
    proof {
        lemma_object_view(before);
    }
    m.insert(k.to_owned(), v);
    proof {
        lemma_object_view(*m);
        let now = object_view(*m);
        let want = object_view(before).insert(k@, v@);
        assert(now.dom() =~= want.dom());
        assert forall|x: Seq<char>| #[trigger] want.contains_key(x) implies now[x] == want[x] by {
            assert(m@.contains_key(x));
            if x != k@ {
                assert(before@.contains_key(x));
            }
        }
        assert(now =~= want);
    }
}

/// The value under a name of an object.
pub fn lookup<'a>(m: &'a StrMap<JsonValue>, k: &str) -> (r: Option<&'a JsonValue>)
    ensures
        match r {
            Some(v) => object_view(*m).contains_key(k@) && object_view(*m)[k@] == v@,
            None => !object_view(*m).contains_key(k@),
        },
{
    let n = m.len();
    proof {
        lemma_object_view(*m);
    }
    m.get(k)
}

/// An object without entries.
pub fn empty_object() -> (r: StrMap<JsonValue>)
    ensures
        object_view(r) == Map::<Seq<char>, Json>::empty(),
{
    let r = StrMap::new();
    assert(pairs_view(r.pairs()) =~= Seq::empty());
    assert(object_view(r) =~= Map::empty());
    r
}

impl Clone for Number {
    fn clone(&self) -> (r: Self)
        ensures
            r == *self,
    {
        match self {
            Number::PosInt(x) => Number::PosInt(*x),
            Number::NegInt(x) => Number::NegInt(*x),
            Number::Float(t) => Number::Float(t.clone()),
        }
    }
}

impl Clone for JsonValue {
    fn clone(&self) -> (r: Self)
        ensures
            r@ == self@,
        decreases self,
    {
        broadcast use lemma_value_view;
        match self {
            JsonValue::Null => JsonValue::Null,
            JsonValue::Bool(b) => JsonValue::Bool(*b),
            JsonValue::Number(n) => JsonValue::Number(n.clone()),
            JsonValue::String(s) => JsonValue::String(s.clone()),
            JsonValue::Array(a) => {
                let mut out: Vec<JsonValue> = Vec::new();
                let mut i: usize = 0;
                assert(decreases_to!(self => a@));
                assert(values_view(out@) =~= values_view(a@).subrange(0, 0));
                while i < a.len()
                    invariant
                        i <= a.len(),
                        decreases_to!(self => a@),
                        values_view(out@) == values_view(a@).subrange(0, i as int),
                    decreases a.len() - i,
                {
                    assert(decreases_to!(a@ => a@[i as int]));
                    let x = a[i].clone();
                    let ghost before = values_view(out@);
                    out.push(x);
                    i = i + 1;
                    assert(values_view(out@) =~= before.push(x@));
                    assert(values_view(out@) =~= values_view(a@).subrange(0, i as int));
                }
                assert(values_view(out@) =~= values_view(a@));
                JsonValue::Array(out)
            },
            JsonValue::Object(m) => {
                let n: usize = m.len();
                proof {
                    m.lemma_pairs();
                }
                let mut out: Vec<(String, JsonValue)> = Vec::new();
                let mut i: usize = 0;
                assert(decreases_to!(self => m.entries@));
                while i < n
                    invariant
                        i <= n,
                        n == m.entries.len(),
                        strmap::unique_keys(m.pairs()),
                        decreases_to!(self => m.entries@),
                        out@.len() == i,
                        forall|j: int| 0 <= j < i ==> (#[trigger] out@[j]).0@ == m.entries@[j].0@ && out@[j].1@ == m.entries@[j].1@,
                    decreases n - i,
                {
                    assert(decreases_to!(m.entries@ => m.entries@[i as int]));
                    assert(decreases_to!(m.entries@[i as int] => m.entries@[i as int].1));
                    let k = m.entries[i].0.clone();
                    let x = m.entries[i].1.clone();
                    out.push((k, x));
                    i = i + 1;
                }
                proof {
                    let p = strmap::entry_pairs(out@);
                    let q = m.pairs();
                    m.lemma_pairs();
                    assert forall|a: int, b: int|
                        0 <= a < p.len() && 0 <= b < p.len() && (#[trigger] p[a]).0 == (#[trigger] p[b]).0 implies a == b by {
                        assert(q[a].0 == q[b].0);
                    }
                    assert(pairs_view(p) =~= pairs_view(q));
                }
                JsonValue::Object(StrMap::from_entries(out))
            },
        }
    }
}


impl JsonValue {
    /// A string value.
    pub fn str(s: &str) -> (r: JsonValue)
        ensures
            r@ == Json::Str(s@),
    {
        broadcast use lemma_value_view;
        JsonValue::String(s.to_owned())
    }

    /// An unsigned number.
    pub fn uint(n: u64) -> (r: JsonValue)
        ensures
            r@ == Json::PosInt(n as int),
    {
        broadcast use lemma_value_view;
        JsonValue::Number(Number::PosInt(n))
    }

    /// Whether this is `null`.
    pub fn is_null(&self) -> (r: bool)
        ensures
            r == (self@ == Json::Null),
    {
        broadcast use lemma_value_view;
        match self {
            JsonValue::Null => true,
            _ => false,
        }
    }

    /// Whether this is an object.
    pub fn is_object(&self) -> (r: bool)
        ensures
            r == self@ is Obj,
    {
        broadcast use lemma_value_view;
        match self {
            JsonValue::Object(_) => true,
            _ => false,
        }
    }

    /// The Boolean, if this is one.
    pub fn as_bool(&self) -> (r: Option<bool>)
        ensures
            r == json_bool(self@),
    {
        broadcast use lemma_value_view;
        match self {
            JsonValue::Bool(b) => Some(*b),
            _ => None,
        }
    }

    /// The string, if this is one.
    pub fn as_str(&self) -> (r: Option<&str>)
        ensures
            match r {
                Some(s) => self@ == Json::Str(s@),
                None => !(self@ is Str),
            },
    {
        broadcast use lemma_value_view;
        match self {
            JsonValue::String(s) => Some(s.as_str()),
            _ => None,
        }
    }

    /// The number, if this is a non-negative integer.
    pub fn as_u64(&self) -> (r: Option<u64>)
        ensures
            match r {
                Some(n) => self@ == Json::PosInt(n as int),
                None => !(self@ is PosInt),
            },
    {
        broadcast use lemma_value_view;
        match self {
            JsonValue::Number(n) => match n {
                Number::PosInt(x) => Some(*x),
                Number::NegInt(x) => if *x < 0 {
                    None
                } else {
                    Some(*x as u64)
                },
                Number::Float(_) => None,
            },
            _ => None,
        }
    }

    /// The elements, if this is an array.
    pub fn as_array(&self) -> (r: Option<&Vec<JsonValue>>)
        ensures
            match r {
                Some(a) => self@ == Json::Arr(values_view(a@)),
                None => !(self@ is Arr),
            },
    {
        broadcast use lemma_value_view;
        match self {
            JsonValue::Array(a) => Some(a),
            _ => None,
        }
    }

    /// The entries, if this is an object.
    pub fn as_object(&self) -> (r: Option<&StrMap<JsonValue>>)
        ensures
            match r {
                Some(m) => self@ == Json::Obj(object_view(*m)),
                None => !(self@ is Obj),
            },
    {
        broadcast use lemma_value_view;
        match self {
            JsonValue::Object(m) => Some(m),
            _ => None,
        }
    }

    /// The value under a name, if this is an object that has it.
    pub fn get(&self, k: &str) -> (r: Option<&JsonValue>)
        ensures
            match r {
                Some(v) => json_get(self@, k@) == Some(v@),
                None => json_get(self@, k@) is None,
            },
    {
        match self.as_object() {
            Some(m) => lookup(m, k),
            None => None,
        }
    }

    /// Whether two values are the same JSON value: the order of the entries of
    /// an object does not count.
    pub fn same(&self, other: &JsonValue) -> (r: bool)
        ensures
            r == (self@ == other@),
        decreases self,
    {
        broadcast use lemma_value_view;
        match (self, other) {
            (JsonValue::Null, JsonValue::Null) => true,
            (JsonValue::Bool(a), JsonValue::Bool(b)) => *a == *b,
            (JsonValue::Number(a), JsonValue::Number(b)) => number_eq(a, b),
            (JsonValue::String(a), JsonValue::String(b)) => str_eq(a.as_str(), b.as_str()),
            (JsonValue::Array(a), JsonValue::Array(b)) => {
                if a.len() != b.len() {
                    proof {
                        assert(values_view(a@).len() != values_view(b@).len());
                    }
                    return false;
                }
                let mut i: usize = 0;
                assert(decreases_to!(self => a@));
                while i < a.len()
                    invariant
                        i <= a.len(),
                        a.len() == b.len(),
                        decreases_to!(self => a@),
                        json_view(*self) == Json::Arr(values_view(a@)),
                        json_view(*other) == Json::Arr(values_view(b@)),
                        forall|j: int| 0 <= j < i ==> values_view(a@)[j] == values_view(b@)[j],
                    decreases a.len() - i,
                {
                    assert(decreases_to!(a@ => a@[i as int]));
                    if !a[i].same(&b[i]) {
                        assert(values_view(a@)[i as int] != values_view(b@)[i as int]);
                        return false;
                    }
                    i = i + 1;
                }
                assert(values_view(a@) =~= values_view(b@));
                true
            },
            (JsonValue::Object(a), JsonValue::Object(b)) => {
                let n: usize = a.len();
                let nb: usize = b.len();
                let mut i: usize = 0;
                proof {
                    a.lemma_pairs();
                    lemma_object_view(*a);
                    lemma_object_view(*b);
                }
                assert(decreases_to!(self => a.entries@));
                while i < n
                    invariant
                        i <= n,
                        n == a.pairs().len(),
                        strmap::unique_keys(a.pairs()),
                        a.pairs() == strmap::entry_pairs(a.entries@),
                        decreases_to!(self => a.entries@),
                        json_view(*self) == Json::Obj(object_view(*a)),
                        json_view(*other) == Json::Obj(object_view(*b)),
                        forall|j: int| 0 <= j < a.pairs().len() ==> object_view(*a).contains_key((#[trigger] a.pairs()[j]).0)
                            && object_view(*a)[a.pairs()[j].0] == a.pairs()[j].1@,
                        forall|j: int| 0 <= j < i ==> object_view(*b).contains_key((#[trigger] a.pairs()[j]).0)
                            && object_view(*b)[a.pairs()[j].0] == a.pairs()[j].1@,
                    decreases n - i,
                {
                    assert(decreases_to!(a.entries@ => a.entries@[i as int]));
                    assert(decreases_to!(a.entries@[i as int] => a.entries@[i as int].1));
                    match lookup(b, a.entries[i].0.as_str()) {
                        Some(v) => {
                            if !a.entries[i].1.same(v) {
                                assert(object_view(*a)[a.pairs()[i as int].0] != object_view(*b)[a.pairs()[i as int].0]);
                                return false;
                            }
                        },
                        None => {
                            assert(object_view(*a).contains_key(a.pairs()[i as int].0));
                            return false;
                        },
                    }
                    i = i + 1;
                }
                let mut j: usize = 0;
                while j < nb
                    invariant
                        j <= nb,
                        nb == b.pairs().len(),
                        json_view(*self) == Json::Obj(object_view(*a)),
                        json_view(*other) == Json::Obj(object_view(*b)),
                        forall|x: int| 0 <= x < b.pairs().len() ==> object_view(*b).contains_key((#[trigger] b.pairs()[x]).0),
                        forall|x: int| 0 <= x < j ==> object_view(*a).contains_key((#[trigger] b.pairs()[x]).0),
                    decreases nb - j,
                {
                    match lookup(a, b.key_at(j).as_str()) {
                        Some(_v) => {},
                        None => {
                            assert(object_view(*b).contains_key(b.pairs()[j as int].0));
                            return false;
                        },
                    }
                    j = j + 1;
                }
                proof {
                    let x = object_view(*a);
                    let y = object_view(*b);
                    assert forall|k: Seq<char>| x.contains_key(k) implies y.contains_key(k) && x[k] == y[k] by {
                        assert(strmap::has_key(pairs_view(a.pairs()), k));
                        let p = strmap::key_index(pairs_view(a.pairs()), k);
                        assert(a.pairs()[p].0 == k);
                    }
                    assert forall|k: Seq<char>| y.contains_key(k) implies x.contains_key(k) by {
                        assert(strmap::has_key(pairs_view(b.pairs()), k));
                        let p = strmap::key_index(pairs_view(b.pairs()), k);
                        assert(b.pairs()[p].0 == k);
                    }
                    assert(x =~= y);
                }
                true
            },
            _ => false,
        }
    }
}

fn number_eq(a: &Number, b: &Number) -> (r: bool)
    ensures
        r == (number_view(*a) == number_view(*b)),
{
    match (a, b) {
        (Number::PosInt(x), Number::PosInt(y)) => *x == *y,
        (Number::NegInt(x), Number::NegInt(y)) => *x == *y,
        (Number::PosInt(x), Number::NegInt(y)) => *y >= 0 && *x == *y as u64,
        (Number::NegInt(x), Number::PosInt(y)) => *x >= 0 && *x as u64 == *y,
        (Number::Float(x), Number::Float(y)) => str_eq(x.as_str(), y.as_str()),
        _ => false,
    }
}

/// What `get` reads.
pub open spec fn json_get(v: Json, k: Seq<char>) -> Option<Json> {
    match v {
        Json::Obj(m) => if m.contains_key(k) {
            Some(m[k])
        } else {
            None
        },
        _ => None,
    }
}

/// What `as_bool` reads.
pub open spec fn json_bool(v: Json) -> Option<bool> {
    match v {
        Json::Bool(b) => Some(b),
        _ => None,
    }
}

// ---------------------------------------------------------------------------
// Text
// ---------------------------------------------------------------------------

#[verifier::external_type_specification]
#[verifier::external_body]
pub struct ExSerdeValue(serde_json::Value);

/// The JSON value that a `serde_json::Value` holds.
pub uninterp spec fn serde_contents(v: serde_json::Value) -> Json;

/// The compact text that `serde_json` writes for a value.
pub uninterp spec fn json_text(v: Json) -> Seq<char>;

/// The contents of a list of values of `serde_json`.
pub open spec fn serde_list(s: Seq<serde_json::Value>) -> Seq<Json> {
    Seq::new(s.len(), |i: int| serde_contents(s[i]))
}

/// The contents of a list of named values of `serde_json`.
pub open spec fn serde_pairs(s: Seq<(String, serde_json::Value)>) -> Seq<(Seq<char>, Json)> {
    Seq::new(s.len(), |i: int| (s[i].0@, serde_contents(s[i].1)))
}

/// Builds `serde_json::Value::Null`.
#[verifier::external_body]
fn serde_null() -> (r: serde_json::Value)
    ensures
        serde_contents(r) == Json::Null,
{
    serde_json::Value::Null
}

/// Builds `serde_json::Value::Bool`.
#[verifier::external_body]
fn serde_bool(b: bool) -> (r: serde_json::Value)
    ensures
        serde_contents(r) == Json::Bool(b),
{
    serde_json::Value::Bool(b)
}

/// Builds a number through `serde_json`'s `From<u64>`.
#[verifier::external_body]
fn serde_u64(n: u64) -> (r: serde_json::Value)
    ensures
        serde_contents(r) == Json::PosInt(n as int),
{
    serde_json::Value::from(n)
}

/// Builds a number through `serde_json`'s `From<i64>`, which makes a negative
/// number only of a negative one.
#[verifier::external_body]
fn serde_i64(n: i64) -> (r: serde_json::Value)
    requires
        n < 0,
    ensures
        serde_contents(r) == Json::NegInt(n as int),
{
    serde_json::Value::from(n)
}

/// Builds `serde_json::Value::String`.
#[verifier::external_body]
fn serde_str(s: &str) -> (r: serde_json::Value)
    ensures
        serde_contents(r) == Json::Str(s@),
{
    serde_json::Value::String(s.to_string())
}

/// Builds `serde_json::Value::Array`.
#[verifier::external_body]
fn serde_array(a: Vec<serde_json::Value>) -> (r: serde_json::Value)
    ensures
        serde_contents(r) == Json::Arr(serde_list(a@)),
{
    serde_json::Value::Array(a)
}

/// Builds `serde_json::Value::Object` by collecting the entries into a
/// `serde_json::Map`.
#[verifier::external_body]
fn serde_object(m: Vec<(String, serde_json::Value)>) -> (r: serde_json::Value)
    requires
        strmap::unique_keys(serde_pairs(m@)),
    ensures
        serde_contents(r) == Json::Obj(strmap::pairs_to_map(serde_pairs(m@))),
{
    serde_json::Value::Object(m.into_iter().collect())
}

/// `<serde_json::Value as ToString>::to_string`: the compact text of a value.
#[verifier::external_body]
fn serde_text(v: &serde_json::Value) -> (r: String)
    ensures
        r@ == json_text(serde_contents(*v)),
{
    v.to_string()
}

/// Reads a number with `serde_json::from_str`; what cannot be read is `null`.
#[verifier::external_body]
fn serde_decimal(text: &str) -> (r: serde_json::Value)
    ensures
        serde_contents(r) == decimal_contents(text@),
{
    serde_json::from_str(text).unwrap_or(serde_json::Value::Null)
}

/// What `serde_json` holds after reading a decimal text.
pub uninterp spec fn decimal_contents(text: Seq<char>) -> Json;

/// A value as `serde_json` holds it: each decimal is the number read from its
/// text.
pub open spec fn held(v: Json) -> Json
    decreases v,
{
    match v {
        Json::Float(t) => decimal_contents(t),
        Json::Arr(s) => Json::Arr(
            Seq::new(
                s.len(),
                |i: int|
                    if 0 <= i < s.len() {
                        held(s[i])
                    } else {
                        Json::Null
                    },
            ),
        ),
        Json::Obj(m) => Json::Obj(
            Map::new(
                |k: Seq<char>| m.contains_key(k),
                |k: Seq<char>|
                    if m.contains_key(k) {
                        held(m[k])
                    } else {
                        Json::Null
                    },
            ),
        ),
        _ => v,
    }
}

fn to_serde(v: &JsonValue) -> (r: serde_json::Value)
    ensures
        serde_contents(r) == held(v@),
    decreases v,
{
    broadcast use lemma_value_view;
    match v {
        JsonValue::Null => serde_null(),
        JsonValue::Bool(b) => serde_bool(*b),
        JsonValue::Number(n) => match n {
            Number::PosInt(x) => serde_u64(*x),
            Number::NegInt(x) => if *x < 0 {
                serde_i64(*x)
            } else {
                serde_u64(*x as u64)
            },
            Number::Float(t) => serde_decimal(t.as_str()),
        },
        JsonValue::String(s) => serde_str(s.as_str()),
        JsonValue::Array(a) => {
            let mut out: Vec<serde_json::Value> = Vec::new();
            let mut i: usize = 0;
            assert(decreases_to!(v => a@));
            while i < a.len()
                invariant
                    i <= a.len(),
                    out@.len() == i,
                    decreases_to!(v => a@),
                    forall|j: int| 0 <= j < i ==> serde_contents(#[trigger] out@[j]) == held(a@[j]@),
                decreases a.len() - i,
            {
                assert(decreases_to!(a@ => a@[i as int]));
                out.push(to_serde(&a[i]));
                i = i + 1;
            }
            proof {
                let want = held(v@)->Arr_0;
                assert(serde_list(out@) =~= want);
            }
            serde_array(out)
        },
        JsonValue::Object(m) => {
            let n: usize = m.len();
            let mut out: Vec<(String, serde_json::Value)> = Vec::new();
            let mut i: usize = 0;
            proof {
                m.lemma_pairs();
                lemma_object_view(*m);
            }
            assert(decreases_to!(v => m.entries@));
            while i < n
                invariant
                    i <= n,
                    n == m.entries.len(),
                    out@.len() == i,
                    decreases_to!(v => m.entries@),
                    forall|j: int| 0 <= j < i ==> (#[trigger] out@[j]).0@ == m.entries@[j].0@
                        && serde_contents(out@[j].1) == held(m.entries@[j].1@),
                decreases n - i,
            {
                assert(decreases_to!(m.entries@ => m.entries@[i as int]));
                assert(decreases_to!(m.entries@[i as int] => m.entries@[i as int].1));
                out.push((m.entries[i].0.clone(), to_serde(&m.entries[i].1)));
                i = i + 1;
            }
            proof {
                let p = serde_pairs(out@);
                let q = pairs_view(m.pairs());
                assert forall|a: int| 0 <= a < p.len() implies (#[trigger] p[a]).0 == q[a].0 && p[a].1 == held(q[a].1) by {
                    assert(out@[a].0@ == m.entries@[a].0@);
                }
                lemma_map_values_held(q, p);
            }
            serde_object(out)
        },
    }
}

/// Mapping every value of a list of pairs maps every value of its map.
proof fn lemma_map_values_held(q: Seq<(Seq<char>, Json)>, p: Seq<(Seq<char>, Json)>)
    requires
        strmap::unique_keys(q),
        p.len() == q.len(),
        forall|a: int| 0 <= a < p.len() ==> (#[trigger] p[a]).0 == q[a].0 && p[a].1 == held(q[a].1),
    ensures
        strmap::unique_keys(p),
        Json::Obj(strmap::pairs_to_map(p)) == held(Json::Obj(strmap::pairs_to_map(q))),
{
    assert forall|i: int, j: int|
        0 <= i < p.len() && 0 <= j < p.len() && (#[trigger] p[i]).0 == (#[trigger] p[j]).0 implies i == j by {
        assert(q[i].0 == q[j].0);
    }
    let x = strmap::pairs_to_map(p);
    let y = held(Json::Obj(strmap::pairs_to_map(q)))->Obj_0;
    assert forall|k: Seq<char>| x.contains_key(k) == y.contains_key(k) by {
        if strmap::has_key(p, k) {
            assert(q[strmap::key_index(p, k)].0 == k);
        }
        if strmap::has_key(q, k) {
            assert(p[strmap::key_index(q, k)].0 == k);
        }
    }
    assert forall|k: Seq<char>| #[trigger] x.contains_key(k) implies x[k] == y[k] by {
        let i = strmap::key_index(p, k);
        strmap::lemma_pair_in_map(p, i);
        strmap::lemma_pair_in_map(q, i);
    }
    assert(x =~= y);
}

/// The compact text of a JSON value.
pub fn to_text(v: &JsonValue) -> (r: String)
    ensures
        r@ == json_text(held(v@)),
{
    serde_text(&to_serde(v))
}

/// Take the value under a name out of an object.
pub fn take(m: &mut StrMap<JsonValue>, k: &str) -> (r: Option<JsonValue>)
    ensures
        object_view(*final(m)) == object_view(*old(m)).remove(k@),
        match r {
            Some(v) => object_view(*old(m)).contains_key(k@) && object_view(*old(m))[k@] == v@,
            None => !object_view(*old(m)).contains_key(k@),
        },
{
    let n = m.len();
    let ghost before = *m;
    proof {
        lemma_object_view(before);
    }
    let r = m.remove(k);
    let n2 = m.len();
    proof {
        lemma_object_view(*m);
        let now = object_view(*m);
        let want = object_view(before).remove(k@);
        assert(now.dom() =~= want.dom());
        assert forall|x: Seq<char>| #[trigger] want.contains_key(x) implies now[x] == want[x] by {
            assert(m@.contains_key(x));
            assert(before@.contains_key(x));
        }
        assert(now =~= want);
    }
    r
}

/// An entry of an object is smaller than the object.
pub proof fn lemma_entry_is_smaller(v: Json, k: Seq<char>)
    requires
        v matches Json::Obj(m) && m.contains_key(k),
    ensures
        decreases_to!(v => v->Obj_0[k]),
{
}

/// A value is held as it is, but for its decimals, which are read from their
/// texts, at any depth.
pub proof fn a_value_is_held_but_for_its_decimals(v: Json, a: Seq<Json>, i: int, m: Map<Seq<char>, Json>, k: Seq<char>)
    requires
        0 <= i < a.len(),
        m.contains_key(k),
    ensures
        !(v is Float) && !(v is Arr) && !(v is Obj) ==> held(v) == v,
        v matches Json::Float(t) ==> held(v) == decimal_contents(t),
        held(Json::Arr(a)) matches Json::Arr(b) && b.len() == a.len() && b[i] == held(a[i]),
        held(Json::Obj(m)) matches Json::Obj(o) && o.dom() == m.dom() && o[k] == held(m[k]),
{
    assert(held(Json::Obj(m))->Obj_0.dom() =~= m.dom());
}

} // verus!
