//! Storage of JSON values by namespace and key.
use vstd::prelude::*;
use vstd::string::*;
use crate::json::{empty_object, Json, JsonValue, lookup, put, take};
use crate::strmap::StrMap;
use crate::text::{cat2, starts_with};
use crate::json;
use crate::strmap;
use crate::text;

verus! {

/// What a storage may report.
#[derive(Debug)]
pub enum StorageError {
    /// The storage did not carry out an operation, for this reason.
    Backend(String),
}

impl StorageError {
    /// The error as a text.
    pub fn to_text(&self) -> (r: String)
        ensures
            r@ == (match *self {
                StorageError::Backend(reason) => "storage backend error: "@ + reason@,
            }),
    {
        match self {
            StorageError::Backend(reason) => cat2("storage backend error: ", reason.as_str()),
        }
    }
}

/// A storage in memory. Namespaces are kept apart.
#[derive(Debug)]
pub struct InMemoryStorageBackend {
    namespaces: StrMap<StrMap<JsonValue>>,
}

/// The values of namespaces, by namespace and key.
pub open spec fn storage_view(m: Map<Seq<char>, StrMap<JsonValue>>) -> Map<(Seq<char>, Seq<char>), Json> {
    Map::new(
        |p: (Seq<char>, Seq<char>)| m.contains_key(p.0) && json::object_view(m[p.0]).contains_key(p.1),
        |p: (Seq<char>, Seq<char>)| json::object_view(m[p.0])[p.1],
    )
}

impl View for InMemoryStorageBackend {
    type V = Map<(Seq<char>, Seq<char>), Json>;

    closed spec fn view(&self) -> Map<(Seq<char>, Seq<char>), Json> {
        storage_view(self.namespaces@)
    }
}

/// Whether pairs are, in some order and once each, those of a namespace whose
/// keys start with a prefix.
pub open spec fn lists_prefix(
    r: Seq<(String, JsonValue)>,
    m: Map<(Seq<char>, Seq<char>), Json>,
    namespace: Seq<char>,
    prefix: Seq<char>,
) -> bool {
    &&& forall|i: int, j: int|
        0 <= i < r.len() && 0 <= j < r.len() && (#[trigger] r[i]).0@ == (#[trigger] r[j]).0@ ==> i == j
    &&& forall|i: int|
        0 <= i < r.len() ==> text::has_prefix((#[trigger] r[i]).0@, prefix) && m.contains_key((namespace, r[i].0@))
            && r[i].1@ == m[(namespace, r[i].0@)]
    &&& forall|k: Seq<char>| #[trigger]
        m.contains_key((namespace, k)) && text::has_prefix(k, prefix) ==> exists|i: int|
            0 <= i < r.len() && (#[trigger] r[i]).0@ == k
}

fn matching_entries(ns: &StrMap<JsonValue>, prefix: &str) -> (r: Vec<(String, JsonValue)>)
    ensures
        forall|i: int, j: int|
            0 <= i < r@.len() && 0 <= j < r@.len() && (#[trigger] r@[i]).0@ == (#[trigger] r@[j]).0@ ==> i == j,
        forall|i: int|
            0 <= i < r@.len() ==> text::has_prefix((#[trigger] r@[i]).0@, prefix@) && json::object_view(*ns).contains_key(r@[i].0@)
                && r@[i].1@ == json::object_view(*ns)[r@[i].0@],
        forall|k: Seq<char>| #[trigger]
            json::object_view(*ns).contains_key(k) && text::has_prefix(k, prefix@) ==> exists|i: int|
                0 <= i < r@.len() && (#[trigger] r@[i]).0@ == k,
{
    let n: usize = ns.len();
    let ghost p = ns.pairs();
    proof {
        json::lemma_object_view(*ns);
    }
    let mut out: Vec<(String, JsonValue)> = Vec::new();
    let ghost mut from: Seq<int> = Seq::empty();
    let mut i: usize = 0;
    while i < n
        invariant
            i <= n,
            n == p.len(),
            p == ns.pairs(),
            strmap::unique_keys(p),
            forall|j: int| 0 <= j < p.len() ==> json::object_view(*ns).contains_key((#[trigger] p[j]).0)
                && json::object_view(*ns)[p[j].0] == p[j].1@,
            from.len() == out@.len(),
            forall|a: int| 0 <= a < from.len() ==> 0 <= #[trigger] from[a] < i && out@[a].0@ == p[from[a]].0,
            forall|a: int, b: int| 0 <= a < b < from.len() ==> #[trigger] from[a] < #[trigger] from[b],
            forall|a: int|
                0 <= a < out@.len() ==> text::has_prefix((#[trigger] out@[a]).0@, prefix@) && json::object_view(*ns).contains_key(
                    out@[a].0@,
                ) && out@[a].1@ == json::object_view(*ns)[out@[a].0@],
            forall|j: int|
                0 <= j < i && text::has_prefix((#[trigger] p[j]).0, prefix@) ==> exists|a: int|
                    0 <= a < out@.len() && (#[trigger] out@[a]).0@ == p[j].0,
        decreases n - i,
    {
        let ghost prev = out@;
        let key = ns.key_at(i);
        if starts_with(key.as_str(), prefix) {
            out.push((key.clone(), ns.value_at(i).clone()));
            proof {
                from = from.push(i as int);
            }
            assert(out@[prev.len() as int].0@ == p[i as int].0);
        }
        assert forall|j: int| 0 <= j < i + 1 && text::has_prefix((#[trigger] p[j]).0, prefix@) implies exists|a: int|
            0 <= a < out@.len() && (#[trigger] out@[a]).0@ == p[j].0 by {
            if j < i {
                let a = choose|a: int| 0 <= a < prev.len() && (#[trigger] prev[a]).0@ == p[j].0;
                assert(out@[a] == prev[a]);
            } else {
                assert(out@[prev.len() as int].0@ == p[j].0);
            }
        }
        i = i + 1;
    }
    proof {
        assert forall|a: int, b: int|
            0 <= a < out@.len() && 0 <= b < out@.len() && (#[trigger] out@[a]).0@ == (#[trigger] out@[b]).0@ implies a == b by {
            assert(p[from[a]].0 == p[from[b]].0);
            assert(from[a] == from[b]);
        }
        assert forall|k: Seq<char>| #[trigger]
            json::object_view(*ns).contains_key(k) && text::has_prefix(k, prefix@) implies exists|a: int|
            0 <= a < out@.len() && (#[trigger] out@[a]).0@ == k by {
            assert(ns@.contains_key(k));
            assert(strmap::has_key(p, k));
            let j = strmap::key_index(p, k);
            assert(p[j].0 == k);
        }
    }
    out
}

impl InMemoryStorageBackend {
    /// A storage without values.
    pub fn new() -> (r: Self)
        ensures
            r@ == Map::<(Seq<char>, Seq<char>), Json>::empty(),
    {
        let r = InMemoryStorageBackend { namespaces: StrMap::new() };
        assert(r@ =~= Map::empty());
        r
    }

    /// Set the value under a key of a namespace.
    pub fn save(&mut self, namespace: &str, key: &str, value: JsonValue) -> (r: Result<(), StorageError>)
        ensures
            r is Ok,
            final(self)@ == old(self)@.insert((namespace@, key@), value@),
    {
        let ghost before_save = self@;
        let ghost v = value@;
        let mut ns = match self.namespaces.remove(namespace) {
            Some(m) => m,
            None => empty_object(),
        };
        put(&mut ns, key, value);
        self.namespaces.insert(namespace.to_owned(), ns);
        assert(self@ =~= before_save.insert((namespace@, key@), v));
        Ok(())
    }

    /// The value under a key of a namespace.
    pub fn get(&self, namespace: &str, key: &str) -> (r: Result<Option<JsonValue>, StorageError>)
        ensures
            r matches Ok(found) && match found {
                Some(v) => self@.contains_key((namespace@, key@)) && self@[(namespace@, key@)] == v@,
                None => !self@.contains_key((namespace@, key@)),
            },
    {
        match self.namespaces.get(namespace) {
            Some(ns) => match lookup(ns, key) {
                Some(v) => Ok(Some(v.clone())),
                None => Ok(None),
            },
            None => Ok(None),
        }
    }

    /// The pairs of a namespace whose keys start with a prefix.
    pub fn list(&self, namespace: &str, prefix: &str) -> (r: Result<Vec<(String, JsonValue)>, StorageError>)
        ensures
            r matches Ok(pairs) && lists_prefix(pairs@, self@, namespace@, prefix@),
    {
        match self.namespaces.get(namespace) {
            Some(ns) => {
                let pairs = matching_entries(ns, prefix);
                assert forall|k: Seq<char>| #[trigger] self@.contains_key((namespace@, k)) && text::has_prefix(
                    k,
                    prefix@,
                ) implies exists|i: int| 0 <= i < pairs@.len() && (#[trigger] pairs@[i]).0@ == k by {
                    assert(json::object_view(*ns).contains_key(k));
                }
                Ok(pairs)
            },
            None => Ok(Vec::new()),
        }
    }

    /// Remove the value under a key of a namespace, where there is one.
    pub fn delete(&mut self, namespace: &str, key: &str) -> (r: Result<(), StorageError>)
        ensures
            r is Ok,
            final(self)@ == old(self)@.remove((namespace@, key@)),
    {
        let ghost before_delete = self@;
        match self.namespaces.remove(namespace) {
            Some(mut ns) => {
                let _gone = take(&mut ns, key);
                self.namespaces.insert(namespace.to_owned(), ns);
            },
            None => {},
        }
        assert(self@ =~= before_delete.remove((namespace@, key@)));
        Ok(())
    }
}

impl Default for InMemoryStorageBackend {
    fn default() -> (r: Self)
        ensures
            r@ == Map::<(Seq<char>, Seq<char>), Json>::empty(),
    {
        InMemoryStorageBackend::new()
    }
}

/// A storage in memory without values.
pub fn default_storage_backend() -> (r: InMemoryStorageBackend)
    ensures
        r@ == Map::<(Seq<char>, Seq<char>), Json>::empty(),
{
    InMemoryStorageBackend::new()
}

/// What is read of a key is what was last saved under it, until it is deleted.
pub proof fn reads_give_what_was_saved(m: Map<(Seq<char>, Seq<char>), Json>, ns: Seq<char>, key: Seq<char>, v: Json)
    ensures
        m.insert((ns, key), v).contains_key((ns, key)),
        m.insert((ns, key), v)[(ns, key)] == v,
        !m.insert((ns, key), v).remove((ns, key)).contains_key((ns, key)),
{
}

/// What is saved or deleted in one namespace changes nothing in another.
pub proof fn namespaces_are_kept_apart(
    m: Map<(Seq<char>, Seq<char>), Json>,
    ns: Seq<char>,
    other: Seq<char>,
    key: Seq<char>,
    k: Seq<char>,
    v: Json,
)
    requires
        ns != other,
    ensures
        m.insert((ns, key), v).contains_key((other, k)) == m.contains_key((other, k)),
        m.contains_key((other, k)) ==> m.insert((ns, key), v)[(other, k)] == m[(other, k)],
        m.remove((ns, key)).contains_key((other, k)) == m.contains_key((other, k)),
        m.contains_key((other, k)) ==> m.remove((ns, key))[(other, k)] == m[(other, k)],
{
}

/// To delete a key a second time, or one that is absent, changes nothing.
pub proof fn deleting_again_changes_nothing(m: Map<(Seq<char>, Seq<char>), Json>, ns: Seq<char>, key: Seq<char>)
    ensures
        m.remove((ns, key)).remove((ns, key)) == m.remove((ns, key)),
        !m.contains_key((ns, key)) ==> m.remove((ns, key)) == m,
{
    assert(m.remove((ns, key)).remove((ns, key)) =~= m.remove((ns, key)));
    if !m.contains_key((ns, key)) {
        assert(m.remove((ns, key)) =~= m);
    }
}

/// A listing has every entry of the namespace under the prefix, with its value,
/// and no other.
pub proof fn a_listing_has_what_is_under_the_prefix(
    r: Seq<(String, JsonValue)>,
    m: Map<(Seq<char>, Seq<char>), Json>,
    namespace: Seq<char>,
    prefix: Seq<char>,
    k: Seq<char>,
    i: int,
)
    requires
        lists_prefix(r, m, namespace, prefix),
    ensures
        m.contains_key((namespace, k)) && text::has_prefix(k, prefix) ==> exists|j: int|
            0 <= j < r.len() && (#[trigger] r[j]).0@ == k && r[j].1@ == m[(namespace, k)],
        0 <= i < r.len() ==> text::has_prefix(r[i].0@, prefix) && m.contains_key((namespace, r[i].0@)) && r[i].1@ == m[(
            namespace,
            r[i].0@,
        )],
        forall|j: int| 0 <= i < j < r.len() ==> (#[trigger] r[j]).0@ != r[i].0@,
{
    if m.contains_key((namespace, k)) && text::has_prefix(k, prefix) {
        let j = choose|j: int| 0 <= j < r.len() && (#[trigger] r[j]).0@ == k;
        assert(r[j].0@ == k && r[j].1@ == m[(namespace, k)]);
    }
}

} // verus!
