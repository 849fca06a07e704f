//! Redaction of sensitive fields, by schema and by name.
use vstd::prelude::*;
use vstd::string::*;
use crate::errors::clone_object;
use crate::json::{empty_object, Json, JsonValue, lookup, put};
use crate::strmap::StrMap;
use crate::text::{starts_with, str_eq};
use crate::json;
use crate::strmap;
use crate::text;

verus! {

/// What stands in place of a sensitive value.
pub const REDACTED_VALUE: &'static str = "***REDACTED***";

/// A value that is hidden unless it is null.
pub open spec fn hidden(v: Json) -> Json {
    if v is Null {
        v
    } else {
        Json::Str(REDACTED_VALUE@)
    }
}

/// Whether a schema marks its value as sensitive.
pub open spec fn is_sensitive(schema: Json) -> bool {
    json::json_get(schema, "x-sensitive"@) == Some(Json::Bool(true))
}

/// Whether a schema describes an object with properties.
pub open spec fn has_object_shape(schema: Json) -> bool {
    json::json_get(schema, "type"@) == Some(Json::Str("object"@)) && json::json_get(schema, "properties"@) is Some
}

/// The fields of an object with those hidden that the schema marks.
pub open spec fn redacted_fields(data: Map<Seq<char>, Json>, schema: Json) -> Map<Seq<char>, Json>
    decreases schema, 0int,
{
    match schema {
        Json::Obj(s) => if s.contains_key("properties"@) {
            match s["properties"@] {
                Json::Obj(p) => Map::new(
                    |k: Seq<char>| data.contains_key(k),
                    |k: Seq<char>|
                        if p.contains_key(k) {
                            redacted_field(data[k], p[k])
                        } else {
                            data[k]
                        },
                ),
                _ => data,
            }
        } else {
            data
        },
        _ => data,
    }
}

/// One field under its schema: hidden where it is marked, descended into where
/// its schema has properties or items.
pub open spec fn redacted_field(v: Json, schema: Json) -> Json
    decreases schema, 1int,
{
    if is_sensitive(schema) {
        hidden(v)
    } else if has_object_shape(schema) {
        match v {
            Json::Obj(m) => Json::Obj(redacted_fields(m, schema)),
            _ => v,
        }
    } else if json::json_get(schema, "type"@) == Some(Json::Str("array"@)) {
        match (v, schema) {
            (Json::Arr(a), Json::Obj(s)) => if s.contains_key("items"@) {
                Json::Arr(Seq::new(a.len(), |i: int| redacted_item(a[i], s["items"@])))
            } else {
                v
            },
            _ => v,
        }
    } else {
        v
    }
}

/// One element of an array under the schema of its items.
pub open spec fn redacted_item(v: Json, schema: Json) -> Json
    decreases schema, 1int,
{
    if is_sensitive(schema) {
        hidden(v)
    } else if has_object_shape(schema) {
        match v {
            Json::Obj(m) => Json::Obj(redacted_fields(m, schema)),
            _ => v,
        }
    } else {
        v
    }
}

/// Whether a name is that of a secret.
pub open spec fn is_secret_name(k: Seq<char>) -> bool {
    text::has_prefix(k, "_secret_"@)
}

/// A value with everything hidden, at any depth, that has a secret name.
pub open spec fn without_secrets(v: Json) -> Json
    decreases v,
{
    match v {
        Json::Obj(m) => Json::Obj(
            Map::new(
                |k: Seq<char>| m.contains_key(k),
                |k: Seq<char>|
                    if !m.contains_key(k) {
                        Json::Null
                    } else if is_secret_name(k) {
                        hidden(m[k])
                    } else {
                        without_secrets(m[k])
                    },
            ),
        ),
        Json::Arr(s) => Json::Arr(
            Seq::new(
                s.len(),
                |i: int|
                    if 0 <= i < s.len() {
                        without_secrets(s[i])
                    } else {
                        Json::Null
                    },
            ),
        ),
        _ => v,
    }
}

/// A redacted value.
pub open spec fn redacted(data: Json, schema: Json) -> Json {
    match data {
        Json::Obj(m) => without_secrets(Json::Obj(redacted_fields(m, schema))),
        _ => data,
    }
}

/// Whether nothing with a secret name shows at any depth.
pub open spec fn shows_no_secret(v: Json) -> bool
    decreases v,
{
    match v {
        Json::Obj(m) => forall|k: Seq<char>| #[trigger]
            m.contains_key(k) ==> if is_secret_name(k) {
                m[k] is Null || m[k] == Json::Str(REDACTED_VALUE@)
            } else {
                shows_no_secret(m[k])
            },
        Json::Arr(s) => forall|i: int| 0 <= i < s.len() ==> shows_no_secret(#[trigger] s[i]),
        _ => true,
    }
}

/// Hiding secrets leaves none.
pub proof fn no_secret_survives(v: Json)
    ensures
        shows_no_secret(without_secrets(v)),
    decreases v,
{
    match v {
        Json::Obj(m) => {
            let r = without_secrets(v)->Obj_0;
            assert forall|k: Seq<char>| #[trigger] r.contains_key(k) implies if is_secret_name(k) {
                r[k] is Null || r[k] == Json::Str(REDACTED_VALUE@)
            } else {
                shows_no_secret(r[k])
            } by {
                assert(m.contains_key(k));
                if !is_secret_name(k) {
                    no_secret_survives(m[k]);
                }
            }
        },
        Json::Arr(s) => {
            let r = without_secrets(v)->Arr_0;
            assert forall|i: int| 0 <= i < r.len() implies shows_no_secret(#[trigger] r[i]) by {
                no_secret_survives(s[i]);
            }
        },
        _ => {},
    }
}

/// A value that shows no secret is left as it is.
pub proof fn hiding_again_changes_nothing(v: Json)
    requires
        shows_no_secret(v),
    ensures
        without_secrets(v) == v,
    decreases v,
{
    match v {
        Json::Obj(m) => {
            let r = without_secrets(v)->Obj_0;
            assert forall|k: Seq<char>| m.contains_key(k) implies #[trigger] r[k] == m[k] by {
                if !is_secret_name(k) {
                    hiding_again_changes_nothing(m[k]);
                }
            }
            assert(r =~= m);
        },
        Json::Arr(s) => {
            let r = without_secrets(v)->Arr_0;
            assert forall|i: int| 0 <= i < s.len() implies #[trigger] r[i] == s[i] by {
                hiding_again_changes_nothing(s[i]);
            }
            assert(r =~= s);
        },
        _ => {},
    }
}

/// A redacted object shows no secret, and a field that the schema marks is
/// hidden.
pub proof fn redaction_hides(data: Map<Seq<char>, Json>, schema: Json, k: Seq<char>)
    requires
        data.contains_key(k),
        json::json_get(schema, "properties"@) matches Some(p) && json::json_get(p, k) matches Some(f) && is_sensitive(f),
    ensures
        redacted(Json::Obj(data), schema) matches Json::Obj(r) && r.contains_key(k) && r[k] == hidden(data[k]),
        shows_no_secret(redacted(Json::Obj(data), schema)),
{
    let mid = redacted_fields(data, schema);
    assert(mid[k] == hidden(data[k]));
    assert(without_secrets(hidden(data[k])) == hidden(data[k]));
    no_secret_survives(Json::Obj(mid));
}

/// Whether a value is another with some values in it, none of them null, replaced
/// by the mark of a hidden one: the names of objects, the lengths of arrays and
/// the nulls are the same.
pub open spec fn masks(r: Json, v: Json) -> bool
    decreases v,
{
    ||| r == Json::Str(REDACTED_VALUE@) && !(v is Null)
    ||| match v {
        Json::Obj(m) => match r {
            Json::Obj(n) => n.dom() == m.dom() && forall|k: Seq<char>| #[trigger] m.contains_key(k) ==> masks(n[k], m[k]),
            _ => false,
        },
        Json::Arr(a) => match r {
            Json::Arr(b) => b.len() == a.len() && forall|i: int| 0 <= i < a.len() ==> masks(b[i], #[trigger] a[i]),
            _ => false,
        },
        _ => r == v,
    }
}

proof fn lemma_masks_itself(v: Json)
    ensures
        masks(v, v),
    decreases v,
{
    match v {
        Json::Obj(m) => {
            assert forall|k: Seq<char>| #[trigger] m.contains_key(k) implies masks(m[k], m[k]) by {
                json::lemma_entry_is_smaller(v, k);
                lemma_masks_itself(m[k]);
            }
        },
        Json::Arr(a) => {
            assert forall|i: int| 0 <= i < a.len() implies masks(a[i], #[trigger] a[i]) by {
                lemma_masks_itself(a[i]);
            }
        },
        _ => {},
    }
}

proof fn lemma_masks_twice(a: Json, b: Json, c: Json)
    requires
        masks(a, b),
        masks(b, c),
    ensures
        masks(a, c),
    decreases c,
{
    if a == Json::Str(REDACTED_VALUE@) {
        if b is Null {
            assert(c is Null);
        }
    } else if b == Json::Str(REDACTED_VALUE@) {
        assert(a == b);
    } else {
        match c {
            Json::Obj(m) => {
                let n = b->Obj_0;
                assert forall|k: Seq<char>| #[trigger] m.contains_key(k) implies masks(a->Obj_0[k], m[k]) by {
                    assert(n.contains_key(k));
                    json::lemma_entry_is_smaller(c, k);
                    lemma_masks_twice(a->Obj_0[k], n[k], m[k]);
                }
            },
            Json::Arr(s) => {
                let n = b->Arr_0;
                assert forall|i: int| 0 <= i < s.len() implies masks(a->Arr_0[i], #[trigger] s[i]) by {
                    assert(masks(a->Arr_0[i], n[i]));
                    lemma_masks_twice(a->Arr_0[i], n[i], s[i]);
                }
            },
            _ => {},
        }
    }
}

proof fn lemma_secrets_masked(v: Json)
    ensures
        masks(without_secrets(v), v),
    decreases v,
{
    match v {
        Json::Obj(m) => {
            let n = without_secrets(v)->Obj_0;
            assert(n.dom() =~= m.dom());
            assert forall|k: Seq<char>| #[trigger] m.contains_key(k) implies masks(n[k], m[k]) by {
                json::lemma_entry_is_smaller(v, k);
                lemma_secrets_masked(m[k]);
            }
        },
        Json::Arr(a) => {
            let n = without_secrets(v)->Arr_0;
            assert forall|i: int| 0 <= i < a.len() implies masks(n[i], #[trigger] a[i]) by {
                lemma_secrets_masked(a[i]);
            }
        },
        _ => {},
    }
}

proof fn lemma_fields_masked(data: Map<Seq<char>, Json>, schema: Json)
    ensures
        masks(Json::Obj(redacted_fields(data, schema)), Json::Obj(data)),
    decreases schema, 0int,
{
    let n = redacted_fields(data, schema);
    assert(n.dom() =~= data.dom());
    assert forall|k: Seq<char>| #[trigger] data.contains_key(k) implies masks(n[k], data[k]) by {
        lemma_masks_itself(data[k]);
        if let Json::Obj(s) = schema {
            if s.contains_key("properties"@) {
                if let Json::Obj(p) = s["properties"@] {
                    if p.contains_key(k) {
                        lemma_inside(schema, "properties"@, k);
                        lemma_field_masked(data[k], p[k]);
                    }
                }
            }
        }
    }
}

proof fn lemma_field_masked(v: Json, schema: Json)
    ensures
        masks(redacted_field(v, schema), v),
        masks(redacted_item(v, schema), v),
    decreases schema, 1int,
{
    lemma_masks_itself(v);
    if !is_sensitive(schema) {
        if has_object_shape(schema) {
            if let Json::Obj(m) = v {
                lemma_fields_masked(m, schema);
            }
        } else if json::json_get(schema, "type"@) == Some(Json::Str("array"@)) {
            if let Json::Arr(a) = v {
                if let Json::Obj(s) = schema {
                    if s.contains_key("items"@) {
                        let n = redacted_field(v, schema)->Arr_0;
                        json::lemma_entry_is_smaller(schema, "items"@);
                        assert forall|i: int| 0 <= i < a.len() implies masks(n[i], #[trigger] a[i]) by {
                            lemma_field_masked(a[i], s["items"@]);
                        }
                    }
                }
            }
        }
    }
}

/// Redaction keeps the shape of a value: it only puts the mark of a hidden value
/// in the place of values that are not null.
pub proof fn redaction_keeps_the_shape(data: Json, schema: Json)
    ensures
        masks(redacted(data, schema), data),
{
    match data {
        Json::Obj(m) => {
            let mid = Json::Obj(redacted_fields(m, schema));
            lemma_fields_masked(m, schema);
            lemma_secrets_masked(mid);
            lemma_masks_twice(without_secrets(mid), mid, data);
        },
        _ => {
            lemma_masks_itself(data);
        },
    }
}

proof fn lemma_fields_settled(data: Map<Seq<char>, Json>, schema: Json)
    ensures
        without_secrets(Json::Obj(redacted_fields(data, schema))) matches Json::Obj(g) && redacted_fields(g, schema) == g,
    decreases schema, 0int,
{
    let f = redacted_fields(data, schema);
    let g = without_secrets(Json::Obj(f))->Obj_0;
    assert(f.dom() =~= data.dom());
    assert(g.dom() =~= f.dom());
    let again = redacted_fields(g, schema);
    assert(again.dom() =~= g.dom());
    assert forall|k: Seq<char>| g.contains_key(k) implies #[trigger] again[k] == g[k] by {
        assert(data.contains_key(k));
        if let Json::Obj(s) = schema {
            if s.contains_key("properties"@) {
                if let Json::Obj(p) = s["properties"@] {
                    if p.contains_key(k) {
                        lemma_inside(schema, "properties"@, k);
                        if !is_secret_name(k) {
                            lemma_field_settled(data[k], p[k]);
                        }
                    }
                }
            }
        }
    }
    assert(again =~= g);
}

proof fn lemma_field_settled(v: Json, schema: Json)
    ensures
        redacted_field(without_secrets(redacted_field(v, schema)), schema) == without_secrets(redacted_field(v, schema)),
        redacted_item(without_secrets(redacted_item(v, schema)), schema) == without_secrets(redacted_item(v, schema)),
    decreases schema, 1int,
{
    if !is_sensitive(schema) {
        if has_object_shape(schema) {
            if let Json::Obj(m) = v {
                lemma_fields_settled(m, schema);
            }
        } else if json::json_get(schema, "type"@) == Some(Json::Str("array"@)) {
            if let Json::Arr(a) = v {
                if let Json::Obj(s) = schema {
                    if s.contains_key("items"@) {
                        let w = without_secrets(redacted_field(v, schema));
                        let x = redacted_field(w, schema);
                        json::lemma_entry_is_smaller(schema, "items"@);
                        assert forall|i: int| 0 <= i < a.len() implies #[trigger] x->Arr_0[i] == w->Arr_0[i] by {
                            lemma_field_settled(a[i], s["items"@]);
                        }
                        assert(x->Arr_0 =~= w->Arr_0);
                    }
                }
            }
        }
    }
}

/// To redact again with the same schema changes nothing.
pub proof fn redacting_with_the_same_schema_again(data: Json, schema: Json)
    ensures
        redacted(redacted(data, schema), schema) == redacted(data, schema),
{
    if let Json::Obj(m) = data {
        lemma_fields_settled(m, schema);
        no_secret_survives(Json::Obj(redacted_fields(m, schema)));
        hiding_again_changes_nothing(redacted(data, schema));
    }
}

/// Whether a schema says anything: it is neither null nor an empty object.
pub open spec fn says_something(schema: Json) -> bool {
    !(schema is Null) && schema != Json::Obj(Map::<Seq<char>, Json>::empty())
}

/// Whether a schema says anything.
pub fn has_schema(schema: &JsonValue) -> (r: bool)
    ensures
        r == says_something(schema@),
{
    if schema.is_null() {
        return false;
    }
    match schema.as_object() {
        Some(m) => {
            let empty = m.is_empty();
            let n = m.len();
            proof {
                json::lemma_object_view(*m);
                if empty {
                    assert(json::object_view(*m) =~= Map::empty());
                } else {
                    assert(json::object_view(*m).contains_key(m.pairs()[0].0));
                }
            }
            !empty
        },
        None => true,
    }
}

fn get_is_true(v: &JsonValue, k: &str) -> (r: bool)
    ensures
        r == (json::json_get(v@, k@) == Some(Json::Bool(true))),
{
    match v.get(k) {
        Some(x) => match x.as_bool() {
            Some(b) => b,
            None => false,
        },
        None => false,
    }
}

fn get_is_text(v: &JsonValue, k: &str, t: &str) -> (r: bool)
    ensures
        r == (json::json_get(v@, k@) == Some(Json::Str(t@))),
{
    match v.get(k) {
        Some(x) => match x.as_str() {
            Some(s) => str_eq(s, t),
            None => false,
        },
        None => false,
    }
}

fn hide_value(v: &JsonValue) -> (r: JsonValue)
    ensures
        r@ == hidden(v@),
{
    broadcast use crate::json::lemma_value_view;
    if v.is_null() {
        JsonValue::Null
    } else {
        JsonValue::str(REDACTED_VALUE)
    }
}

/// The fields of an object with those hidden that the schema marks.
fn redact_fields(data: &StrMap<JsonValue>, schema: &JsonValue) -> (r: StrMap<JsonValue>)
    ensures
        json::object_view(r) == redacted_fields(json::object_view(*data), schema@),
    decreases schema@, 0int,
{
    let properties = match schema.get("properties") {
        Some(p) => match p.as_object() {
            Some(m) => m,
            None => {
                return clone_object(data);
            },
        },
        None => {
            return clone_object(data);
        },
    };
    let ghost d = json::object_view(*data);
    let ghost p = json::object_view(*properties);
    let ghost want = redacted_fields(d, schema@);
    let n: usize = data.len();
    let mut out = empty_object();
    let mut i: usize = 0;
    proof {
        json::lemma_object_view(*data);
    }
    while i < n
        invariant
            i <= n,
            n == data.pairs().len(),
            d == json::object_view(*data),
            p == json::object_view(*properties),
            schema@ matches Json::Obj(s) && s.contains_key("properties"@) && s["properties"@] == Json::Obj(p),
            want == redacted_fields(d, schema@),
            d.dom() == data@.dom(),
            forall|j: int| 0 <= j < n ==> d.contains_key((#[trigger] data.pairs()[j]).0)
                && d[data.pairs()[j].0] == data.pairs()[j].1@,
            forall|k: Seq<char>| #[trigger] json::object_view(out).contains_key(k) ==> d.contains_key(k)
                && json::object_view(out)[k] == want[k],
            forall|j: int| 0 <= j < i ==> json::object_view(out).contains_key((#[trigger] data.pairs()[j]).0),
        decreases n - i,
    {
        let key = data.key_at(i);
        let value = data.value_at(i);
        let new_value = match lookup(properties, key.as_str()) {
            Some(field_schema) => {
                proof {
                    lemma_inside(schema@, "properties"@, key@);
                }
                redact_field(value, field_schema)
            },
            None => value.clone(),
        };
        put(&mut out, key.as_str(), new_value);
        i = i + 1;
    }
    proof {
        assert forall|k: Seq<char>| d.contains_key(k) implies json::object_view(out).contains_key(k) by {
            let j = strmap::key_index(data.pairs(), k);
            assert(data@.contains_key(k));
            assert(data.pairs()[j].0 == k);
        }
        assert(json::object_view(out) =~= want);
    }
    out
}

/// A value two levels inside an object is smaller than it.
proof fn lemma_inside(v: Json, a: Seq<char>, b: Seq<char>)
    requires
        v matches Json::Obj(m) && m.contains_key(a) && (m[a] matches Json::Obj(p) && p.contains_key(b)),
    ensures
        decreases_to!(v => v->Obj_0[a]->Obj_0[b]),
{
    json::lemma_entry_is_smaller(v, a);
    json::lemma_entry_is_smaller(v->Obj_0[a], b);
}

fn redact_field(v: &JsonValue, schema: &JsonValue) -> (r: JsonValue)
    ensures
        r@ == redacted_field(v@, schema@),
    decreases schema@, 1int,
{
    broadcast use crate::json::lemma_value_view;
    if get_is_true(schema, "x-sensitive") {
        return hide_value(v);
    }
    if get_is_text(schema, "type", "object") && schema.get("properties").is_some() {
        return match v.as_object() {
            Some(m) => JsonValue::Object(redact_fields(m, schema)),
            None => v.clone(),
        };
    }
    if get_is_text(schema, "type", "array") {
        match (v.as_array(), schema.get("items")) {
            (Some(a), Some(items)) => {
                let mut out: Vec<JsonValue> = Vec::new();
                let mut i: usize = 0;
                proof {
                    json::lemma_entry_is_smaller(schema@, "items"@);
                }
                while i < a.len()
                    invariant
                        i <= a.len(),
                        out@.len() == i,
                        decreases_to!(schema@ => items@),
                        forall|j: int| 0 <= j < i ==> (#[trigger] out@[j])@ == redacted_item(a@[j]@, items@),
                    decreases a.len() - i,
                {
                    out.push(redact_item(&a[i], items));
                    i = i + 1;
                }
                proof {
                    assert(json::values_view(out@) =~= redacted_field(v@, schema@)->Arr_0);
                }
                return JsonValue::Array(out);
            },
            _ => {},
        }
    }
    v.clone()
}

fn redact_item(v: &JsonValue, schema: &JsonValue) -> (r: JsonValue)
    ensures
        r@ == redacted_item(v@, schema@),
    decreases schema@, 1int,
{
    broadcast use crate::json::lemma_value_view;
    if get_is_true(schema, "x-sensitive") {
        return hide_value(v);
    }
    if get_is_text(schema, "type", "object") && schema.get("properties").is_some() {
        return match v.as_object() {
            Some(m) => JsonValue::Object(redact_fields(m, schema)),
            None => v.clone(),
        };
    }
    v.clone()
}

/// The entries of an object with everything hidden, at any depth, that has a
/// secret name.
fn redact_secret_prefix(data: &StrMap<JsonValue>) -> (r: StrMap<JsonValue>)
    ensures
        Json::Obj(json::object_view(r)) == without_secrets(Json::Obj(json::object_view(*data))),
    decreases Json::Obj(json::object_view(*data)), 0int,
{
    let ghost d = json::object_view(*data);
    let ghost want = without_secrets(Json::Obj(d))->Obj_0;
    let n: usize = data.len();
    let mut out = empty_object();
    let mut i: usize = 0;
    proof {
        json::lemma_object_view(*data);
    }
    while i < n
        invariant
            i <= n,
            n == data.pairs().len(),
            d == json::object_view(*data),
            want == without_secrets(Json::Obj(d))->Obj_0,
            d.dom() == data@.dom(),
            forall|j: int| 0 <= j < n ==> d.contains_key((#[trigger] data.pairs()[j]).0)
                && d[data.pairs()[j].0] == data.pairs()[j].1@,
            forall|k: Seq<char>| #[trigger] json::object_view(out).contains_key(k) ==> d.contains_key(k)
                && json::object_view(out)[k] == want[k],
            forall|j: int| 0 <= j < i ==> json::object_view(out).contains_key((#[trigger] data.pairs()[j]).0),
        decreases n - i,
    {
        let key = data.key_at(i);
        let value = data.value_at(i);
        assert(d.contains_key(key@));
        let new_value = if starts_with(key.as_str(), "_secret_") {
            hide_value(value)
        } else {
            proof {
                json::lemma_entry_is_smaller(Json::Obj(d), key@);
            }
            redact_secret_value(value)
        };
        put(&mut out, key.as_str(), new_value);
        i = i + 1;
    }
    proof {
        assert forall|k: Seq<char>| d.contains_key(k) implies json::object_view(out).contains_key(k) by {
            let j = strmap::key_index(data.pairs(), k);
            assert(data@.contains_key(k));
            assert(data.pairs()[j].0 == k);
        }
        assert(json::object_view(out) =~= want);
    }
    out
}

fn redact_secret_value(v: &JsonValue) -> (r: JsonValue)
    ensures
        r@ == without_secrets(v@),
    decreases v@, 1int,
{
    broadcast use crate::json::lemma_value_view;
    match v {
        JsonValue::Object(m) => JsonValue::Object(redact_secret_prefix(m)),
        JsonValue::Array(a) => JsonValue::Array(redact_secret_prefix_in_list(a)),
        _ => v.clone(),
    }
}

/// The elements of a list, each with its secrets hidden.
fn redact_secret_prefix_in_list(items: &Vec<JsonValue>) -> (r: Vec<JsonValue>)
    ensures
        Json::Arr(json::values_view(r@)) == without_secrets(Json::Arr(json::values_view(items@))),
    decreases Json::Arr(json::values_view(items@)), 0int,
{
    let ghost s = json::values_view(items@);
    let mut out: Vec<JsonValue> = Vec::new();
    let mut i: usize = 0;
    while i < items.len()
        invariant
            i <= items.len(),
            out@.len() == i,
            s == json::values_view(items@),
            forall|j: int| 0 <= j < i ==> (#[trigger] out@[j])@ == without_secrets(s[j]),
        decreases items.len() - i,
    {
        proof {
            let whole = Json::Arr(s);
            assert(decreases_to!(whole => whole->Arr_0));
            assert(decreases_to!(s => s[i as int]));
        }
        out.push(redact_secret_value(&items[i]));
        i = i + 1;
    }
    assert(json::values_view(out@) =~= without_secrets(Json::Arr(s))->Arr_0);
    out
}

/// A copy of `data` in which the fields that the schema marks, and at any
/// depth those with a secret name, are hidden.
pub fn redact_sensitive(data: &JsonValue, schema: &JsonValue) -> (r: JsonValue)
    ensures
        r@ == redacted(data@, schema@),
{
    broadcast use crate::json::lemma_value_view;
    match data.as_object() {
        Some(m) => {
            let marked = redact_fields(m, schema);
            JsonValue::Object(redact_secret_prefix(&marked))
        },
        None => data.clone(),
    }
}

/// Whether a value does not show: it is null or the mark of a hidden one.
pub open spec fn is_masked(v: Json) -> bool {
    v is Null || v == Json::Str("***REDACTED***"@)
}

/// Whether the fields of an object that the properties of a schema mark do not
/// show, at any depth that the schema reaches.
pub open spec fn marks_do_not_show(v: Json, schema: Json) -> bool
    decreases schema, 0int,
{
    match (v, schema) {
        (Json::Obj(m), Json::Obj(s)) => if s.contains_key("properties"@) {
            match s["properties"@] {
                Json::Obj(p) => forall|k: Seq<char>|
                    #![trigger m.contains_key(k)]
                    m.contains_key(k) && p.contains_key(k) ==> mark_does_not_show(m[k], p[k]),
                _ => true,
            }
        } else {
            true
        },
        _ => true,
    }
}

/// Whether a value does not show where its schema marks it, nor anything inside
/// it that its schema marks: in the fields of an object, and in the items of an
/// array and the fields of those.
pub open spec fn mark_does_not_show(v: Json, schema: Json) -> bool
    decreases schema, 1int,
{
    match schema {
        Json::Obj(s) => {
            &&& s.contains_key("x-sensitive"@) && s["x-sensitive"@] == Json::Bool(true) ==> is_masked(v)
            &&& s.contains_key("type"@) && s["type"@] == Json::Str("object"@) ==> marks_do_not_show(v, schema)
            &&& s.contains_key("type"@) && s["type"@] == Json::Str("array"@) && s.contains_key("items"@) ==> (v matches Json::Arr(
                a,
            ) ==> forall|i: int| 0 <= i < a.len() ==> mark_in_item_does_not_show(#[trigger] a[i], s["items"@]))
        },
        _ => true,
    }
}

/// Whether an item of an array does not show where its schema marks it, nor any
/// field of it that its schema marks.
pub open spec fn mark_in_item_does_not_show(v: Json, schema: Json) -> bool
    decreases schema, 1int,
{
    match schema {
        Json::Obj(s) => {
            &&& s.contains_key("x-sensitive"@) && s["x-sensitive"@] == Json::Bool(true) ==> is_masked(v)
            &&& s.contains_key("type"@) && s["type"@] == Json::Str("object"@) ==> marks_do_not_show(v, schema)
        },
        _ => true,
    }
}

proof fn lemma_fields_do_not_show(data: Map<Seq<char>, Json>, schema: Json)
    ensures
        marks_do_not_show(Json::Obj(redacted_fields(data, schema)), schema),
        marks_do_not_show(without_secrets(Json::Obj(redacted_fields(data, schema))), schema),
    decreases schema, 0int,
{
    if let Json::Obj(s) = schema {
        if s.contains_key("properties"@) {
            if let Json::Obj(p) = s["properties"@] {
                let f = redacted_fields(data, schema);
                let g = without_secrets(Json::Obj(f))->Obj_0;
                assert forall|k: Seq<char>|
                    #![trigger f.contains_key(k)]
                    f.contains_key(k) && p.contains_key(k) implies mark_does_not_show(f[k], p[k]) by {
                    lemma_inside(schema, "properties"@, k);
                    lemma_field_does_not_show(data[k], p[k]);
                }
                assert forall|k: Seq<char>|
                    #![trigger g.contains_key(k)]
                    g.contains_key(k) && p.contains_key(k) implies mark_does_not_show(g[k], p[k]) by {
                    lemma_inside(schema, "properties"@, k);
                    assert(f.contains_key(k));
                    lemma_field_does_not_show(data[k], p[k]);
                    lemma_masked_does_not_show(hidden(f[k]), p[k]);
                }
            }
        }
    }
}

proof fn lemma_masked_does_not_show(v: Json, schema: Json)
    requires
        is_masked(v),
    ensures
        mark_does_not_show(v, schema),
        mark_in_item_does_not_show(v, schema),
{
}

proof fn lemma_field_does_not_show(v: Json, schema: Json)
    ensures
        mark_does_not_show(redacted_field(v, schema), schema),
        mark_does_not_show(without_secrets(redacted_field(v, schema)), schema),
        mark_in_item_does_not_show(redacted_item(v, schema), schema),
        mark_in_item_does_not_show(without_secrets(redacted_item(v, schema)), schema),
    decreases schema, 1int,
{
    if let Json::Obj(s) = schema {
        if is_sensitive(schema) {
            lemma_masked_does_not_show(hidden(v), schema);
            assert(without_secrets(hidden(v)) == hidden(v));
        } else {
            if let Json::Obj(m) = v {
                lemma_fields_do_not_show(m, schema);
            }
            if !has_object_shape(schema) && s.contains_key("type"@) && s["type"@] == Json::Str("object"@) {
                assert(!s.contains_key("properties"@));
            }
            if s.contains_key("type"@) && s["type"@] == Json::Str("array"@) && s.contains_key("items"@) {
                if let Json::Arr(a) = v {
                    let r = redacted_field(v, schema);
                    reveal_strlit("array");
                    reveal_strlit("object");
                    assert("array"@.len() != "object"@.len());
                    json::lemma_entry_is_smaller(schema, "items"@);
                    assert forall|i: int| 0 <= i < a.len() implies mark_in_item_does_not_show(
                        #[trigger] r->Arr_0[i],
                        s["items"@],
                    ) by {
                        lemma_field_does_not_show(a[i], s["items"@]);
                    }
                    let w = without_secrets(r);
                    assert forall|i: int| 0 <= i < a.len() implies mark_in_item_does_not_show(
                        #[trigger] w->Arr_0[i],
                        s["items"@],
                    ) by {
                        lemma_field_does_not_show(a[i], s["items"@]);
                    }
                }
            }
        }
    }
}

/// Whatever the schema marks, in the fields of objects and in the items of
/// arrays and their fields, does not show in a redacted object.
pub proof fn marked_values_do_not_show(data: Map<Seq<char>, Json>, schema: Json)
    ensures
        marks_do_not_show(redacted(Json::Obj(data), schema), schema),
{
    lemma_fields_do_not_show(data, schema);
}

/// A step into a value: to the field of a name, or to the item at a place.
pub enum Step {
    Name(Seq<char>),
    Item(int),
}

/// The value that steps lead to.
pub open spec fn value_at(v: Json, steps: Seq<Step>) -> Option<Json>
    decreases steps.len(),
{
    if steps.len() == 0 {
        Some(v)
    } else {
        match (steps[0], v) {
            (Step::Name(k), Json::Obj(m)) => if m.contains_key(k) {
                value_at(m[k], steps.skip(1))
            } else {
                None
            },
            (Step::Item(i), Json::Arr(a)) => if 0 <= i < a.len() {
                value_at(a[i], steps.skip(1))
            } else {
                None
            },
            _ => None,
        }
    }
}

/// The schema of what a step leads to.
pub open spec fn schema_after(schema: Json, step: Step) -> Option<Json> {
    match step {
        Step::Name(k) => match json::json_get(schema, "properties"@) {
            Some(p) => json::json_get(p, k),
            None => None,
        },
        Step::Item(_) => json::json_get(schema, "items"@),
    }
}

/// Whether steps meet nothing to be hidden: no schema on the way marks its value,
/// and no name on the way is that of a secret.
pub open spec fn meets_no_mark(schema: Option<Json>, steps: Seq<Step>) -> bool
    decreases steps.len(),
{
    steps.len() > 0 ==> {
        let next = match schema {
            Some(s) => schema_after(s, steps[0]),
            None => None,
        };
        &&& next matches Some(n) ==> json::json_get(n, "x-sensitive"@) != Some(Json::Bool(true))
        &&& steps[0] matches Step::Name(k) ==> !text::has_prefix(k, "_secret_"@)
        &&& meets_no_mark(next, steps.skip(1))
    }
}

/// Whether a value has nothing inside.
pub open spec fn is_leaf(v: Json) -> bool {
    !(v is Obj) && !(v is Arr)
}

proof fn lemma_no_schema_no_mark(schema: Option<Json>, steps: Seq<Step>)
    requires
        meets_no_mark(schema, steps),
    ensures
        meets_no_mark(None, steps),
    decreases steps.len(),
{
    if steps.len() > 0 {
        let next = match schema {
            Some(s) => schema_after(s, steps[0]),
            None => None,
        };
        lemma_no_schema_no_mark(next, steps.skip(1));
    }
}

proof fn lemma_secrets_leave(v: Json, steps: Seq<Step>)
    requires
        meets_no_mark(None, steps),
        value_at(v, steps) matches Some(x) && is_leaf(x),
    ensures
        value_at(without_secrets(v), steps) == value_at(v, steps),
    decreases steps.len(),
{
    if steps.len() > 0 {
        match (steps[0], v) {
            (Step::Name(k), Json::Obj(m)) => {
                lemma_secrets_leave(m[k], steps.skip(1));
            },
            (Step::Item(i), Json::Arr(a)) => {
                lemma_secrets_leave(a[i], steps.skip(1));
            },
            _ => {},
        }
    }
}

proof fn lemma_fields_leave(data: Map<Seq<char>, Json>, schema: Json, steps: Seq<Step>)
    requires
        steps.len() > 0,
        meets_no_mark(Some(schema), steps),
        value_at(Json::Obj(data), steps) matches Some(x) && is_leaf(x),
    ensures
        value_at(Json::Obj(redacted_fields(data, schema)), steps) == value_at(Json::Obj(data), steps),
    decreases steps.len(), 0int,
{
    let k = steps[0]->Name_0;
    let rest = steps.skip(1);
    if let Json::Obj(s) = schema {
        if s.contains_key("properties"@) {
            if let Json::Obj(p) = s["properties"@] {
                if p.contains_key(k) {
                    assert(schema_after(schema, steps[0]) == Some(p[k]));
                    lemma_field_leaves(data[k], p[k], rest);
                }
            }
        }
    }
}

proof fn lemma_field_leaves(v: Json, schema: Json, steps: Seq<Step>)
    requires
        json::json_get(schema, "x-sensitive"@) != Some(Json::Bool(true)),
        meets_no_mark(Some(schema), steps),
        value_at(v, steps) matches Some(x) && is_leaf(x),
    ensures
        value_at(redacted_field(v, schema), steps) == value_at(v, steps),
        value_at(redacted_item(v, schema), steps) == value_at(v, steps),
    decreases steps.len(), 1int,
{
    if steps.len() > 0 {
        match v {
            Json::Obj(m) => {
                lemma_fields_leave(m, schema, steps);
            },
            Json::Arr(a) => {
                let i = steps[0]->Item_0;
                if json::json_get(schema, "items"@) is Some {
                    let items = json::json_get(schema, "items"@)->0;
                    assert(schema_after(schema, steps[0]) == Some(items));
                    lemma_field_leaves(a[i], items, steps.skip(1));
                }
            },
            _ => {},
        }
    }
}

/// Whatever meets no mark of the schema and no name of a secret on its way shows
/// in a redacted object as it was.
pub proof fn unmarked_values_show(data: Map<Seq<char>, Json>, schema: Json, steps: Seq<Step>)
    requires
        meets_no_mark(Some(schema), steps),
        value_at(Json::Obj(data), steps) matches Some(x) && is_leaf(x),
    ensures
        value_at(redacted(Json::Obj(data), schema), steps) == value_at(Json::Obj(data), steps),
{
    lemma_fields_leave(data, schema, steps);
    lemma_no_schema_no_mark(Some(schema), steps);
    lemma_secrets_leave(Json::Obj(redacted_fields(data, schema)), steps);
}

/// Whatever has the name of a secret does not show, wherever it stands in a
/// redacted object.
pub proof fn secrets_do_not_show(data: Map<Seq<char>, Json>, schema: Json, steps: Seq<Step>, k: Seq<char>)
    requires
        text::has_prefix(k, "_secret_"@),
    ensures
        value_at(redacted(Json::Obj(data), schema), steps.push(Step::Name(k))) matches Some(x) ==> is_masked(x),
{
    lemma_secret_is_masked(Json::Obj(redacted_fields(data, schema)), steps, k);
}

proof fn lemma_secret_is_masked(v: Json, steps: Seq<Step>, k: Seq<char>)
    requires
        text::has_prefix(k, "_secret_"@),
    ensures
        value_at(without_secrets(v), steps.push(Step::Name(k))) matches Some(x) ==> is_masked(x),
    decreases steps.len(),
{
    let all = steps.push(Step::Name(k));
    if steps.len() == 0 {
        assert(all.skip(1) =~= Seq::empty());
        if let Json::Obj(m) = v {
            if m.contains_key(k) {
                assert(without_secrets(v)->Obj_0[k] == hidden(m[k]));
                assert(value_at(hidden(m[k]), all.skip(1)) == Some(hidden(m[k])));
            }
        }
    } else {
        assert(all.skip(1) =~= steps.skip(1).push(Step::Name(k)));
        match (steps[0], v) {
            (Step::Name(n), Json::Obj(m)) => {
                if m.contains_key(n) {
                    if is_secret_name(n) {
                        assert(all.skip(1).len() > 0);
                        assert(value_at(hidden(m[n]), all.skip(1)) is None);
                    } else {
                        lemma_secret_is_masked(m[n], steps.skip(1), k);
                    }
                }
            },
            (Step::Item(i), Json::Arr(a)) => {
                if 0 <= i < a.len() {
                    lemma_secret_is_masked(a[i], steps.skip(1), k);
                }
            },
            _ => {},
        }
    }
}

/// A value that is no object is not redacted.
pub proof fn only_objects_are_redacted(data: Json, schema: Json)
    requires
        !(data is Obj),
    ensures
        redacted(data, schema) == data,
{
}

/// A schema says something unless it is null or has no entry.
pub proof fn what_a_schema_says(schema: Json, m: Map<Seq<char>, Json>, k: Seq<char>)
    ensures
        !says_something(Json::Null),
        !says_something(Json::Obj(Map::empty())),
        m.contains_key(k) ==> says_something(Json::Obj(m)),
        !(schema is Null) && !(schema is Obj) ==> says_something(schema),
{
}

} // verus!
