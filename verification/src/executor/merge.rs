//! Deep merge of the chunks of a stream.
use vstd::prelude::*;
use vstd::string::*;
use crate::clock::Timestamp;
use crate::error_code::ErrorCode;
use crate::errors::{ErrorView, ModuleError};
use crate::json::{empty_object, Json, JsonValue, put, take};
use crate::strmap::StrMap;
use crate::text::{cat5, decimal};
use crate::errors;
use crate::json;
use crate::strmap;
use crate::text;

verus! {

/// How deep a merge descends.
pub const DEEP_MERGE_MAX_DEPTH: usize = 32;

/// An overlay merged onto a base. Two objects merge name by name, down to
/// `levels` further levels, below which the overlay's entries replace the
/// base's; anything else is replaced by the overlay.
pub open spec fn deep_merge(base: Json, overlay: Json, levels: nat) -> Json
    decreases levels,
{
    match (base, overlay) {
        (Json::Obj(b), Json::Obj(o)) => Json::Obj(
            Map::new(
                |k: Seq<char>| b.contains_key(k) || o.contains_key(k),
                |k: Seq<char>|
                    if !o.contains_key(k) {
                        b[k]
                    } else if b.contains_key(k) && levels > 0 {
                        deep_merge(b[k], o[k], (levels - 1) as nat)
                    } else {
                        o[k]
                    },
            ),
        ),
        _ => overlay,
    }
}

/// Merging onto an empty object gives the overlay.
pub proof fn merge_onto_nothing(overlay: Json, levels: nat)
    ensures
        deep_merge(Json::Obj(Map::empty()), overlay, levels) == overlay,
{
    if let Json::Obj(o) = overlay {
        assert(deep_merge(Json::Obj(Map::empty()), overlay, levels)->Obj_0 =~= o);
    }
}

/// Merging an empty object onto an object changes nothing.
pub proof fn merge_of_nothing(base: Map<Seq<char>, Json>, levels: nat)
    ensures
        deep_merge(Json::Obj(base), Json::Obj(Map::empty()), levels) == Json::Obj(base),
{
    assert(deep_merge(Json::Obj(base), Json::Obj(Map::empty()), levels)->Obj_0 =~= base);
}

/// Merging a value onto itself changes nothing.
pub proof fn merge_onto_itself(v: Json, levels: nat)
    ensures
        deep_merge(v, v, levels) == v,
    decreases levels,
{
    if let Json::Obj(m) = v {
        let r = deep_merge(v, v, levels)->Obj_0;
        assert forall|k: Seq<char>| m.contains_key(k) implies #[trigger] r[k] == m[k] by {
            if levels > 0 {
                merge_onto_itself(m[k], (levels - 1) as nat);
            }
        }
        assert(r =~= m);
    }
}

/// A merge keeps every name of both objects; a name that only one of them has
/// keeps its value.
pub proof fn merge_keeps_names(base: Map<Seq<char>, Json>, overlay: Map<Seq<char>, Json>, levels: nat)
    ensures
        deep_merge(Json::Obj(base), Json::Obj(overlay), levels) matches Json::Obj(r) && r.dom() == base.dom().union(
            overlay.dom(),
        ) && (forall|k: Seq<char>| base.contains_key(k) && !overlay.contains_key(k) ==> #[trigger] r[k] == base[k])
            && (forall|k: Seq<char>| overlay.contains_key(k) && !base.contains_key(k) ==> #[trigger] r[k] == overlay[k]),
{
    let r = deep_merge(Json::Obj(base), Json::Obj(overlay), levels)->Obj_0;
    assert(r.dom() =~= base.dom().union(overlay.dom()));
}

/// How many levels are merged below a depth.
pub open spec fn levels_below(depth: nat) -> nat {
    if depth < DEEP_MERGE_MAX_DEPTH {
        (DEEP_MERGE_MAX_DEPTH - depth) as nat
    } else {
        0
    }
}

/// Merge an overlay onto a base in place, at a given depth.
pub fn deep_merge_value(base: &mut JsonValue, overlay: &JsonValue, depth: usize)
    ensures
        final(base)@ == deep_merge(old(base)@, overlay@, levels_below(depth as nat)),
{
    let mut b = JsonValue::Null;
    std::mem::swap(base, &mut b);
    let at: usize = if depth < DEEP_MERGE_MAX_DEPTH {
        depth
    } else {
        DEEP_MERGE_MAX_DEPTH
    };
    *base = merged(b, overlay, at);
}

fn merged(base: JsonValue, overlay: &JsonValue, depth: usize) -> (r: JsonValue)
    requires
        depth <= DEEP_MERGE_MAX_DEPTH,
    ensures
        r@ == deep_merge(base@, overlay@, (DEEP_MERGE_MAX_DEPTH - depth) as nat),
    decreases DEEP_MERGE_MAX_DEPTH - depth,
{
    broadcast use crate::json::lemma_value_view;
    match (base, overlay) {
        (JsonValue::Object(b), JsonValue::Object(o)) => {
            JsonValue::Object(merged_object(b, o, depth))
        },
        _ => overlay.clone(),
    }
}

/// Whether one of the first `n` entries has this name.
spec fn seen(m: StrMap<JsonValue>, n: int, k: Seq<char>) -> bool {
    exists|j: int| 0 <= j < n && (#[trigger] m.pairs()[j]).0 == k
}

fn merged_object(base: StrMap<JsonValue>, overlay: &StrMap<JsonValue>, depth: usize) -> (r: StrMap<JsonValue>)
    requires
        depth <= DEEP_MERGE_MAX_DEPTH,
    ensures
        Json::Obj(json::object_view(r)) == deep_merge(
            Json::Obj(json::object_view(base)),
            Json::Obj(json::object_view(*overlay)),
            (DEEP_MERGE_MAX_DEPTH - depth) as nat,
        ),
    decreases DEEP_MERGE_MAX_DEPTH - depth, 0int,
{
    let ghost levels = (DEEP_MERGE_MAX_DEPTH - depth) as nat;
    let ghost b = json::object_view(base);
    let ghost o = json::object_view(*overlay);
    let ghost want = deep_merge(Json::Obj(b), Json::Obj(o), levels)->Obj_0;
    let mut out = base;
    let n: usize = overlay.len();
    let mut i: usize = 0;
    proof {
        json::lemma_object_view(*overlay);
    }
    while i < n
        invariant
            i <= n,
            n == overlay.pairs().len(),
            depth <= DEEP_MERGE_MAX_DEPTH,
            levels == DEEP_MERGE_MAX_DEPTH - depth,
            o == json::object_view(*overlay),
            want == deep_merge(Json::Obj(b), Json::Obj(o), levels)->Obj_0,
            strmap::unique_keys(overlay.pairs()),
            o.dom() == overlay@.dom(),
            forall|j: int| 0 <= j < n ==> o.contains_key((#[trigger] overlay.pairs()[j]).0)
                && o[overlay.pairs()[j].0] == overlay.pairs()[j].1@,
            forall|k: Seq<char>| #[trigger] json::object_view(out).contains_key(k) <==> b.contains_key(k) || seen(*overlay, i as int, k),
            forall|k: Seq<char>| #[trigger] json::object_view(out).contains_key(k) ==> json::object_view(out)[k] == if seen(
                *overlay,
                i as int,
                k,
            ) {
                want[k]
            } else {
                b[k]
            },
        decreases n - i,
    {
        let key = overlay.key_at(i);
        let value = overlay.value_at(i);
        assert(!seen(*overlay, i as int, key@)) by {
            if seen(*overlay, i as int, key@) {
                let j = choose|j: int| 0 <= j < i && (#[trigger] overlay.pairs()[j]).0 == key@;
                assert(overlay.pairs()[j].0 == overlay.pairs()[i as int].0);
            }
        }
        let ghost before = json::object_view(out);
        let new_value = match take(&mut out, key.as_str()) {
            Some(old_value) => if depth < DEEP_MERGE_MAX_DEPTH {
                merged(old_value, value, depth + 1)
            } else {
                value.clone()
            },
            None => value.clone(),
        };
        assert(new_value@ == want[key@]);
        put(&mut out, key.as_str(), new_value);
        proof {
            assert(overlay.pairs()[i as int].0 == key@);
            assert forall|k: Seq<char>| seen(*overlay, i + 1, k) == (seen(*overlay, i as int, k) || k == key@) by {
                if seen(*overlay, i + 1, k) {
                    let j = choose|j: int| 0 <= j < i + 1 && (#[trigger] overlay.pairs()[j]).0 == k;
                    if j < i {
                        assert(seen(*overlay, i as int, k));
                    }
                }
            }
        }
        i = i + 1;
    }
    proof {
        assert forall|k: Seq<char>| seen(*overlay, n as int, k) == o.contains_key(k) by {
            if o.contains_key(k) {
                assert(overlay@.contains_key(k));
                let j = strmap::key_index(overlay.pairs(), k);
                assert(overlay.pairs()[j].0 == k);
            }
        }
        assert(json::object_view(out) =~= want);
    }
    out
}

/// The fold of a merge over chunks.
pub open spec fn merge_all(chunks: Seq<Json>) -> Json
    decreases chunks.len(),
{
    if chunks.len() == 0 {
        Json::Obj(Map::empty())
    } else {
        deep_merge(merge_all(chunks.drop_last()), chunks.last(), DEEP_MERGE_MAX_DEPTH as nat)
    }
}

/// The name of the kind of a JSON value.
pub open spec fn kind_name(v: Json) -> Seq<char> {
    match v {
        Json::Null => "null"@,
        Json::Bool(_) => "bool"@,
        Json::PosInt(_) => "number"@,
        Json::NegInt(_) => "number"@,
        Json::Float(_) => "number"@,
        Json::Str(_) => "string"@,
        Json::Arr(_) => "array"@,
        Json::Obj(_) => "object"@,
    }
}

/// The name of the kind of a JSON value.
pub fn json_type_name(v: &JsonValue) -> (r: &'static str)
    ensures
        r@ == kind_name(v@),
{
    broadcast use crate::json::lemma_value_view;
    match v {
        JsonValue::Null => "null",
        JsonValue::Bool(_) => "bool",
        JsonValue::Number(_) => "number",
        JsonValue::String(_) => "string",
        JsonValue::Array(_) => "array",
        JsonValue::Object(_) => "object",
    }
}

/// The error for a chunk that is no object.
pub open spec fn chunk_error(idx: nat, chunk: Json, timestamp: Timestamp) -> ErrorView {
    errors::detailed_error(
        ErrorCode::GeneralInvalidInput,
        "Streaming chunk at index "@ + text::decimal_text(idx) + " is not a JSON object (got "@ + kind_name(chunk)
            + "); chunks must be objects so deep_merge can accumulate them."@,
        map![
            "code"@ => Json::Str("STREAM_CHUNK_NOT_OBJECT"@),
            "chunk_index"@ => Json::PosInt(idx as int),
            "actual_type"@ => Json::Str(kind_name(chunk))
        ],
        timestamp,
    )
}

/// The error for a chunk that is no object.
pub fn stream_chunk_not_object_error(idx: usize, chunk: &JsonValue) -> (r: ModuleError)
    ensures
        r@ == chunk_error(idx as nat, chunk@, r@.timestamp),
{
    let kind = json_type_name(chunk);
    let mut details = empty_object();
    put(&mut details, "code", JsonValue::str("STREAM_CHUNK_NOT_OBJECT"));
    put(&mut details, "chunk_index", JsonValue::uint(idx as u64));
    put(&mut details, "actual_type", JsonValue::str(kind));
    let number = decimal(idx as u64);
    let message = cat5(
        "Streaming chunk at index ",
        number.as_str(),
        " is not a JSON object (got ",
        kind,
        "); chunks must be objects so deep_merge can accumulate them.",
    );
    ModuleError::new(ErrorCode::GeneralInvalidInput, message.as_str()).with_details(details)
}

/// Merge chunks that must all be objects. The first one that is not gives the
/// error; no chunks give an empty object.
pub fn deep_merge_chunks_checked(chunks: &Vec<JsonValue>) -> (r: Result<JsonValue, ModuleError>)
    ensures
        r is Ok <==> (forall|i: int| 0 <= i < chunks@.len() ==> (#[trigger] chunks@[i])@ is Obj),
        match r {
            Ok(v) => v@ == merge_all(json::values_view(chunks@)),
            Err(e) => exists|i: int|
                0 <= i < chunks@.len() && !((#[trigger] chunks@[i])@ is Obj) && (forall|j: int|
                    0 <= j < i ==> (#[trigger] chunks@[j])@ is Obj) && e@ == chunk_error(
                    i as nat,
                    chunks@[i]@,
                    e@.timestamp,
                ),
        },
{
    broadcast use crate::json::lemma_value_view;
    let mut acc = JsonValue::Object(empty_object());
    let mut i: usize = 0;
    assert(json::values_view(chunks@).subrange(0, 0) =~= Seq::empty());
    while i < chunks.len()
        invariant
            i <= chunks.len(),
            forall|j: int| 0 <= j < i ==> (#[trigger] chunks@[j])@ is Obj,
            acc@ == merge_all(json::values_view(chunks@).subrange(0, i as int)),
        decreases chunks.len() - i,
    {
        if !chunks[i].is_object() {
            return Err(stream_chunk_not_object_error(i, &chunks[i]));
        }
        deep_merge_value(&mut acc, &chunks[i], 0);
        proof {
            let s = json::values_view(chunks@).subrange(0, i + 1);
            assert(s.drop_last() =~= json::values_view(chunks@).subrange(0, i as int));
            assert(s.last() == chunks@[i as int]@);
        }
        i = i + 1;
    }
    assert(json::values_view(chunks@).subrange(0, chunks@.len() as int) =~= json::values_view(chunks@));
    Ok(acc)
}

/// The value that a path of names leads to.
pub open spec fn at_path(v: Json, path: Seq<Seq<char>>) -> Option<Json>
    decreases path.len(),
{
    if path.len() == 0 {
        Some(v)
    } else {
        match json::json_get(v, path[0]) {
            Some(x) => at_path(x, path.skip(1)),
            None => None,
        }
    }
}

/// Whether an object says nothing about a path: one of the objects on the way
/// does not have the next name.
pub open spec fn says_nothing_at(v: Json, path: Seq<Seq<char>>) -> bool
    decreases path.len(),
{
    path.len() > 0 && v is Obj && (json::json_get(v, path[0]) matches Some(x) ==> says_nothing_at(x, path.skip(1)))
}

/// What is not two objects is not merged: the overlay takes the place of the base.
pub proof fn the_overlay_replaces(base: Json, overlay: Json, levels: nat)
    requires
        !(base is Obj && overlay is Obj),
    ensures
        deep_merge(base, overlay, levels) == overlay,
{
}

/// Under a name that both objects have, a value of either that is no object, or
/// that lies below the last level, gives way to the overlay's value.
pub proof fn the_later_value_wins(base: Map<Seq<char>, Json>, overlay: Map<Seq<char>, Json>, k: Seq<char>, levels: nat)
    requires
        base.contains_key(k),
        overlay.contains_key(k),
        !(base[k] is Obj) || !(overlay[k] is Obj) || levels == 0,
    ensures
        deep_merge(Json::Obj(base), Json::Obj(overlay), levels) matches Json::Obj(r) && r.contains_key(k) && r[k]
            == overlay[k],
{
    if levels > 0 {
        the_overlay_replaces(base[k], overlay[k], (levels - 1) as nat);
    }
}

/// Two objects under the same name, above the last level, become one object with
/// the names of both.
pub proof fn inner_objects_are_merged(base: Map<Seq<char>, Json>, overlay: Map<Seq<char>, Json>, k: Seq<char>, levels: nat)
    requires
        base.contains_key(k),
        overlay.contains_key(k),
        base[k] is Obj,
        overlay[k] is Obj,
        levels > 0,
    ensures
        deep_merge(Json::Obj(base), Json::Obj(overlay), levels) matches Json::Obj(r) && r.contains_key(k) && (r[k] matches
            Json::Obj(m) && m.dom() == base[k]->Obj_0.dom().union(overlay[k]->Obj_0.dom())),
{
    let b = base[k]->Obj_0;
    let o = overlay[k]->Obj_0;
    assert(deep_merge(base[k], overlay[k], (levels - 1) as nat)->Obj_0.dom() =~= b.dom().union(o.dom()));
}

/// Whatever the overlay has at a path, the merge has there too, unless it is an
/// object, which may have got more names.
pub proof fn the_overlay_shows(base: Json, overlay: Json, levels: nat, path: Seq<Seq<char>>)
    requires
        at_path(overlay, path) is Some,
        !(at_path(overlay, path)->0 is Obj),
    ensures
        at_path(deep_merge(base, overlay, levels), path) == at_path(overlay, path),
    decreases path.len(),
{
    if path.len() > 0 && base is Obj {
        let k = path[0];
        let b = base->Obj_0;
        let o = overlay->Obj_0;
        if b.contains_key(k) && levels > 0 {
            the_overlay_shows(b[k], o[k], (levels - 1) as nat, path.skip(1));
        }
    }
}

/// Whatever the base has at a path about which the overlay says nothing stays,
/// as deep as a merge descends.
pub proof fn the_base_stays(base: Json, overlay: Json, levels: nat, path: Seq<Seq<char>>)
    requires
        at_path(base, path) is Some,
        says_nothing_at(overlay, path),
        path.len() <= levels + 1,
    ensures
        at_path(deep_merge(base, overlay, levels), path) == at_path(base, path),
    decreases path.len(),
{
    let k = path[0];
    let b = base->Obj_0;
    let o = overlay->Obj_0;
    if o.contains_key(k) {
        assert(says_nothing_at(o[k], path.skip(1)));
        the_base_stays(b[k], o[k], (levels - 1) as nat, path.skip(1));
    }
}

/// A merge makes nothing up: what it has at a path, unless it is an object, the
/// base or the overlay has there.
pub proof fn a_merge_makes_nothing_up(base: Json, overlay: Json, levels: nat, path: Seq<Seq<char>>)
    requires
        at_path(deep_merge(base, overlay, levels), path) matches Some(x) && !(x is Obj),
    ensures
        at_path(deep_merge(base, overlay, levels), path) == at_path(overlay, path) || at_path(
            deep_merge(base, overlay, levels),
            path,
        ) == at_path(base, path),
    decreases path.len(),
{
    if path.len() > 0 && base is Obj && overlay is Obj {
        let k = path[0];
        let b = base->Obj_0;
        let o = overlay->Obj_0;
        if b.contains_key(k) && o.contains_key(k) && levels > 0 {
            a_merge_makes_nothing_up(b[k], o[k], (levels - 1) as nat, path.skip(1));
        }
    }
}

/// Merging starts at the top with all levels.
pub proof fn levels_count_down(depth: nat)
    ensures
        levels_below(0) == 32,
        depth < 32 ==> levels_below(depth) == levels_below(depth + 1) + 1,
        depth >= 32 ==> levels_below(depth) == 0,
{
}

/// The chunks of a stream merge into an object; no chunks into an empty one.
pub proof fn chunks_merge_into_an_object(chunks: Seq<Json>)
    requires
        forall|i: int| 0 <= i < chunks.len() ==> (#[trigger] chunks[i]) is Obj,
    ensures
        merge_all(chunks) is Obj,
        chunks.len() == 0 ==> merge_all(chunks) == Json::Obj(Map::<Seq<char>, Json>::empty()),
        chunks.len() == 1 ==> merge_all(chunks) == chunks[0],
    decreases chunks.len(),
{
    if chunks.len() > 0 {
        let rest = chunks.drop_last();
        assert forall|i: int| 0 <= i < rest.len() implies (#[trigger] rest[i]) is Obj by {
            assert(chunks[i] is Obj);
        }
        assert(chunks[chunks.len() - 1] is Obj);
        chunks_merge_into_an_object(rest);
        if chunks.len() == 1 {
            merge_onto_nothing(chunks[0], 32);
        }
    }
}

/// What a chunk has at a path, and no later chunk says anything about, is in the
/// merged chunks at that path.
pub proof fn the_latest_chunk_wins(chunks: Seq<Json>, i: int, path: Seq<Seq<char>>)
    requires
        0 <= i < chunks.len(),
        at_path(chunks[i], path) is Some,
        !(at_path(chunks[i], path)->0 is Obj),
        forall|j: int| i < j < chunks.len() ==> says_nothing_at(#[trigger] chunks[j], path),
        path.len() <= 33,
    ensures
        at_path(merge_all(chunks), path) == at_path(chunks[i], path),
    decreases chunks.len(),
{
    let rest = chunks.drop_last();
    if i == chunks.len() - 1 {
        the_overlay_shows(merge_all(rest), chunks[i], 32, path);
    } else {
        assert forall|j: int| i < j < rest.len() implies says_nothing_at(#[trigger] rest[j], path) by {
            assert(says_nothing_at(chunks[j], path));
        }
        the_latest_chunk_wins(rest, i, path);
        assert(says_nothing_at(chunks[chunks.len() - 1], path));
        the_base_stays(merge_all(rest), chunks.last(), 32, path);
    }
}

/// What the merged chunks have at a path, unless it is an object, one of the
/// chunks has there.
pub proof fn merged_chunks_make_nothing_up(chunks: Seq<Json>, path: Seq<Seq<char>>)
    requires
        at_path(merge_all(chunks), path) matches Some(x) && !(x is Obj),
    ensures
        exists|i: int| 0 <= i < chunks.len() && at_path(#[trigger] chunks[i], path) == at_path(merge_all(chunks), path),
    decreases chunks.len(),
{
    if chunks.len() > 0 {
        let rest = chunks.drop_last();
        a_merge_makes_nothing_up(merge_all(rest), chunks.last(), 32, path);
        if at_path(merge_all(chunks), path) == at_path(chunks.last(), path) {
            assert(at_path(chunks[chunks.len() - 1], path) == at_path(merge_all(chunks), path));
        } else {
            merged_chunks_make_nothing_up(rest, path);
            let i = choose|i: int| 0 <= i < rest.len() && at_path(#[trigger] rest[i], path) == at_path(
                merge_all(rest),
                path,
            );
            assert(chunks[i] == rest[i]);
        }
    }
}

/// The error for a chunk tells which chunk it is and what it is.
pub proof fn a_refused_chunk_is_told(idx: nat, chunk: Json, timestamp: Timestamp)
    ensures
        ({
            let e = chunk_error(idx, chunk, timestamp);
            &&& e.code == ErrorCode::GeneralInvalidInput
            &&& e.details.contains_key("code"@) && e.details["code"@] == Json::Str("STREAM_CHUNK_NOT_OBJECT"@)
            &&& e.details.contains_key("chunk_index"@) && e.details["chunk_index"@] == Json::PosInt(idx as int)
            &&& e.details.contains_key("actual_type"@)
            &&& chunk is Null ==> e.details["actual_type"@] == Json::Str("null"@)
            &&& chunk is Bool ==> e.details["actual_type"@] == Json::Str("bool"@)
            &&& chunk is PosInt || chunk is NegInt || chunk is Float ==> e.details["actual_type"@] == Json::Str("number"@)
            &&& chunk is Str ==> e.details["actual_type"@] == Json::Str("string"@)
            &&& chunk is Arr ==> e.details["actual_type"@] == Json::Str("array"@)
        }),
{
    reveal_strlit("code");
    reveal_strlit("chunk_index");
    reveal_strlit("actual_type");
    assert("code"@.len() == 4 && "chunk_index"@.len() == 11 && "actual_type"@.len() == 11);
    assert("chunk_index"@[0] != "actual_type"@[0]);
}

/// Values are told of by their kinds.
pub proof fn kinds_have_names(b: bool, n: int, s: Seq<char>, a: Seq<Json>, m: Map<Seq<char>, Json>)
    ensures
        kind_name(Json::Null) == "null"@,
        kind_name(Json::Bool(b)) == "bool"@,
        kind_name(Json::PosInt(n)) == "number"@,
        kind_name(Json::NegInt(n)) == "number"@,
        kind_name(Json::Float(s)) == "number"@,
        kind_name(Json::Str(s)) == "string"@,
        kind_name(Json::Arr(a)) == "array"@,
        kind_name(Json::Obj(m)) == "object"@,
{
}

} // verus!
