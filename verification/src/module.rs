//! Descriptions of modules and the results of checking calls to them.
use vstd::prelude::*;
use vstd::string::*;
use crate::errors::{clone_object, text_values};
use crate::json::{empty_object, Json, JsonValue, lookup, put};
use crate::strmap::StrMap;
use crate::text::str_eq;
use crate::errors;
use crate::json;
use crate::strmap;
use crate::text;

verus! {

/// Name of the check that reports access control.
pub const ACL_CHECK_NAME: &'static str = "acl";

/// Name of the check that carries a module's own warnings.
pub const MODULE_PREFLIGHT_CHECK_NAME: &'static str = "module_preflight";

/// Name of the check that reports a module's preview.
pub const MODULE_PREVIEW_CHECK_NAME: &'static str = "module_preview";

/// Behavioural annotations of a module. Extension keys live in `extra`.
#[derive(Debug)]
pub struct ModuleAnnotations {
    pub readonly: bool,
    pub destructive: bool,
    pub idempotent: bool,
    pub requires_approval: bool,
    pub open_world: bool,
    pub streaming: bool,
    pub cacheable: bool,
    pub cache_ttl: u64,
    pub cache_key_fields: Option<Vec<String>>,
    pub paginated: bool,
    pub pagination_style: String,
    pub extra: StrMap<JsonValue>,
}

/// The mathematical contents of annotations.
#[verifier::ext_equal]
pub struct AnnotationsView {
    pub readonly: bool,
    pub destructive: bool,
    pub idempotent: bool,
    pub requires_approval: bool,
    pub open_world: bool,
    pub streaming: bool,
    pub cacheable: bool,
    pub cache_ttl: int,
    pub cache_key_fields: Option<Seq<Seq<char>>>,
    pub paginated: bool,
    pub pagination_style: Seq<char>,
    pub extra: Map<Seq<char>, Json>,
}

/// The texts of an optional list.
pub open spec fn opt_texts(o: Option<Vec<String>>) -> Option<Seq<Seq<char>>> {
    match o {
        Some(v) => Some(text::texts(v@)),
        None => None,
    }
}

impl View for ModuleAnnotations {
    type V = AnnotationsView;

    open spec fn view(&self) -> AnnotationsView {
        AnnotationsView {
            readonly: self.readonly,
            destructive: self.destructive,
            idempotent: self.idempotent,
            requires_approval: self.requires_approval,
            open_world: self.open_world,
            streaming: self.streaming,
            cacheable: self.cacheable,
            cache_ttl: self.cache_ttl as int,
            cache_key_fields: opt_texts(self.cache_key_fields),
            paginated: self.paginated,
            pagination_style: self.pagination_style@,
            extra: json::object_view(self.extra),
        }
    }
}

/// The annotations of a module that declares none.
pub open spec fn default_annotations() -> AnnotationsView {
    AnnotationsView {
        readonly: false,
        destructive: false,
        idempotent: false,
        requires_approval: false,
        open_world: true,
        streaming: false,
        cacheable: false,
        cache_ttl: 0,
        cache_key_fields: None,
        paginated: false,
        pagination_style: "cursor"@,
        extra: Map::empty(),
    }
}

impl Default for ModuleAnnotations {
    fn default() -> (r: Self)
        ensures
            r@ == default_annotations(),
    {
        ModuleAnnotations {
            readonly: false,
            destructive: false,
            idempotent: false,
            requires_approval: false,
            open_world: true,
            streaming: false,
            cacheable: false,
            cache_ttl: 0,
            cache_key_fields: None,
            paginated: false,
            pagination_style: "cursor".to_owned(),
            extra: empty_object(),
        }
    }
}

/// The names of the Boolean annotations.
pub open spec fn is_flag_name(k: Seq<char>) -> bool {
    k == "readonly"@ || k == "destructive"@ || k == "idempotent"@ || k == "requires_approval"@ || k == "open_world"@ || k
        == "streaming"@ || k == "cacheable"@ || k == "paginated"@
}

/// The names of all annotations but the extensions.
pub open spec fn is_annotation_name(k: Seq<char>) -> bool {
    is_flag_name(k) || k == "cache_ttl"@ || k == "cache_key_fields"@ || k == "pagination_style"@
}

/// Whether a value is a list of texts.
pub open spec fn is_text_list(v: Json) -> bool {
    v matches Json::Arr(s) && forall|i: int| 0 <= i < s.len() ==> (#[trigger] s[i]) is Str
}

/// The texts of a list of texts.
pub open spec fn text_list(s: Seq<Json>) -> Seq<Seq<char>> {
    Seq::new(s.len(), |i: int| s[i]->Str_0)
}

/// Whether an entry has the type that its name asks for.
pub open spec fn entry_fits(k: Seq<char>, v: Json) -> bool {
    if is_flag_name(k) {
        v is Bool
    } else if k == "cache_ttl"@ {
        v is PosInt
    } else if k == "cache_key_fields"@ {
        v is Null || is_text_list(v)
    } else if k == "pagination_style"@ {
        v is Str
    } else if k == "extra"@ {
        v is Null || v is Obj
    } else {
        true
    }
}

/// A flag that an object may set.
pub open spec fn flag_of(m: Map<Seq<char>, Json>, k: Seq<char>, default: bool) -> bool {
    if m.contains_key(k) {
        m[k]->Bool_0
    } else {
        default
    }
}

/// The entries outside the annotations, which count as extensions.
pub open spec fn loose_entries(m: Map<Seq<char>, Json>) -> Map<Seq<char>, Json> {
    Map::new(|k: Seq<char>| m.contains_key(k) && !is_annotation_name(k) && k != "extra"@, |k: Seq<char>| m[k])
}

/// The entries of the nested `extra` object.
pub open spec fn nested_extra(m: Map<Seq<char>, Json>) -> Map<Seq<char>, Json> {
    if m.contains_key("extra"@) && m["extra"@] is Obj {
        m["extra"@]->Obj_0
    } else {
        Map::empty()
    }
}

/// The annotations that an object stands for, where every entry fits. An entry
/// of the nested `extra` object wins over a loose entry of the same name.
pub open spec fn annotations_of(m: Map<Seq<char>, Json>) -> AnnotationsView {
    AnnotationsView {
        readonly: flag_of(m, "readonly"@, false),
        destructive: flag_of(m, "destructive"@, false),
        idempotent: flag_of(m, "idempotent"@, false),
        requires_approval: flag_of(m, "requires_approval"@, false),
        open_world: flag_of(m, "open_world"@, true),
        streaming: flag_of(m, "streaming"@, false),
        cacheable: flag_of(m, "cacheable"@, false),
        cache_ttl: if m.contains_key("cache_ttl"@) {
            m["cache_ttl"@]->PosInt_0
        } else {
            0
        },
        cache_key_fields: if m.contains_key("cache_key_fields"@) && m["cache_key_fields"@] is Arr {
            Some(text_list(m["cache_key_fields"@]->Arr_0))
        } else {
            None
        },
        paginated: flag_of(m, "paginated"@, false),
        pagination_style: if m.contains_key("pagination_style"@) {
            m["pagination_style"@]->Str_0
        } else {
            "cursor"@
        },
        extra: loose_entries(m).union_prefer_right(nested_extra(m)),
    }
}

/// Why a value does not read as annotations.
#[derive(Debug)]
pub enum AnnotationsError {
    /// The value is no object.
    NotAnObject,
    /// The entry of this name has the wrong type.
    WrongType(String),
}

fn read_flag(m: &StrMap<JsonValue>, k: &str, default: bool) -> (r: Option<bool>)
    ensures
        match r {
            Some(b) => (json::object_view(*m).contains_key(k@) ==> json::object_view(*m)[k@] is Bool) && b == flag_of(
                json::object_view(*m),
                k@,
                default,
            ),
            None => json::object_view(*m).contains_key(k@) && !(json::object_view(*m)[k@] is Bool),
        },
{
    match lookup(m, k) {
        Some(v) => v.as_bool(),
        None => Some(default),
    }
}

fn wrong_type(k: &str) -> (r: Result<ModuleAnnotations, AnnotationsError>)
    ensures
        r matches Err(AnnotationsError::WrongType(f)) && f@ == k@,
{
    Err(AnnotationsError::WrongType(k.to_owned()))
}

fn read_texts(a: &Vec<JsonValue>) -> (r: Option<Vec<String>>)
    ensures
        match r {
            Some(v) => is_text_list(Json::Arr(json::values_view(a@))) && text::texts(v@) == text_list(json::values_view(a@)),
            None => !is_text_list(Json::Arr(json::values_view(a@))),
        },
{
    let mut out: Vec<String> = Vec::new();
    let mut i: usize = 0;
    while i < a.len()
        invariant
            i <= a.len(),
            out@.len() == i,
            forall|j: int| 0 <= j < i ==> json::values_view(a@)[j] == Json::Str((#[trigger] out@[j])@),
        decreases a.len() - i,
    {
        match a[i].as_str() {
            Some(s) => {
                out.push(s.to_owned());
            },
            None => {
                assert(!(json::values_view(a@)[i as int] is Str));
                return None;
            },
        }
        i = i + 1;
    }
    proof {
        assert forall|j: int| 0 <= j < json::values_view(a@).len() implies (#[trigger] json::values_view(a@)[j]) is Str by {
            assert(json::values_view(a@)[j] == Json::Str(out@[j]@));
        }
        assert(text::texts(out@) =~= text_list(json::values_view(a@)));
    }
    Some(out)
}

impl ModuleAnnotations {
    /// Read annotations from a JSON object. A missing entry takes its default;
    /// an entry of an unknown name is an extension, as are those of the nested
    /// `extra` object, which win over loose ones; a null `extra` is empty.
    pub fn from_json(v: &JsonValue) -> (r: Result<ModuleAnnotations, AnnotationsError>)
        ensures
            match r {
                Ok(a) => v@ matches Json::Obj(m) && (forall|k: Seq<char>| #[trigger]
                    m.contains_key(k) ==> entry_fits(k, m[k])) && a@ == annotations_of(m),
                Err(AnnotationsError::NotAnObject) => !(v@ is Obj),
                Err(AnnotationsError::WrongType(f)) => v@ matches Json::Obj(m) && m.contains_key(f@) && !entry_fits(
                    f@,
                    m[f@],
                ),
            },
    {
        let m = match v.as_object() {
            Some(m) => m,
            None => {
                return Err(AnnotationsError::NotAnObject);
            },
        };
        let ghost map = json::object_view(*m);
        proof {
            lemma_annotation_names();
        }
        let readonly = match read_flag(m, "readonly", false) {
            Some(b) => b,
            None => {
                return wrong_type("readonly");
            },
        };
        let destructive = match read_flag(m, "destructive", false) {
            Some(b) => b,
            None => {
                return wrong_type("destructive");
            },
        };
        let idempotent = match read_flag(m, "idempotent", false) {
            Some(b) => b,
            None => {
                return wrong_type("idempotent");
            },
        };
        let requires_approval = match read_flag(m, "requires_approval", false) {
            Some(b) => b,
            None => {
                return wrong_type("requires_approval");
            },
        };
        let open_world = match read_flag(m, "open_world", true) {
            Some(b) => b,
            None => {
                return wrong_type("open_world");
            },
        };
        let streaming = match read_flag(m, "streaming", false) {
            Some(b) => b,
            None => {
                return wrong_type("streaming");
            },
        };
        let cacheable = match read_flag(m, "cacheable", false) {
            Some(b) => b,
            None => {
                return wrong_type("cacheable");
            },
        };
        let paginated = match read_flag(m, "paginated", false) {
            Some(b) => b,
            None => {
                return wrong_type("paginated");
            },
        };
        let cache_ttl: u64 = match lookup(m, "cache_ttl") {
            Some(x) => match x.as_u64() {
                Some(n) => n,
                None => {
                    return wrong_type("cache_ttl");
                },
            },
            None => 0,
        };
        let cache_key_fields = match lookup(m, "cache_key_fields") {
            Some(x) => if x.is_null() {
                None
            } else {
                match x.as_array() {
                    Some(a) => match read_texts(a) {
                        Some(t) => Some(t),
                        None => {
                            return wrong_type("cache_key_fields");
                        },
                    },
                    None => {
                        return wrong_type("cache_key_fields");
                    },
                }
            },
            None => None,
        };
        let pagination_style = match lookup(m, "pagination_style") {
            Some(x) => match x.as_str() {
                Some(s) => s.to_owned(),
                None => {
                    return wrong_type("pagination_style");
                },
            },
            None => "cursor".to_owned(),
        };
        let nested = match lookup(m, "extra") {
            Some(x) => if x.is_null() {
                empty_object()
            } else {
                match x.as_object() {
                    Some(o) => clone_object(o),
                    None => {
                        return wrong_type("extra");
                    },
                }
            },
            None => empty_object(),
        };
        assert(json::object_view(nested) == nested_extra(map));
        let extra = gather_extra(m, nested);
        Ok(
            ModuleAnnotations {
                readonly,
                destructive,
                idempotent,
                requires_approval,
                open_world,
                streaming,
                cacheable,
                cache_ttl,
                cache_key_fields,
                paginated,
                pagination_style,
                extra,
            },
        )
    }

    /// The JSON object of annotations, with the extensions nested under
    /// `extra`.
    pub fn to_json(&self) -> (r: JsonValue)
        ensures
            r@ == Json::Obj(annotation_fields(self@)),
    {
        broadcast use crate::json::lemma_value_view;
        let mut m = empty_object();
        put(&mut m, "readonly", JsonValue::Bool(self.readonly));
        put(&mut m, "destructive", JsonValue::Bool(self.destructive));
        put(&mut m, "idempotent", JsonValue::Bool(self.idempotent));
        put(&mut m, "requires_approval", JsonValue::Bool(self.requires_approval));
        put(&mut m, "open_world", JsonValue::Bool(self.open_world));
        put(&mut m, "streaming", JsonValue::Bool(self.streaming));
        put(&mut m, "cacheable", JsonValue::Bool(self.cacheable));
        put(&mut m, "cache_ttl", JsonValue::uint(self.cache_ttl));
        let fields = match &self.cache_key_fields {
            Some(v) => JsonValue::Array(text_values(v)),
            None => JsonValue::Null,
        };
        put(&mut m, "cache_key_fields", fields);
        put(&mut m, "paginated", JsonValue::Bool(self.paginated));
        put(&mut m, "pagination_style", JsonValue::str(self.pagination_style.as_str()));
        put(&mut m, "extra", JsonValue::Object(clone_object(&self.extra)));
        JsonValue::Object(m)
    }
}

/// The entries of the JSON object of annotations.
pub open spec fn annotation_fields(a: AnnotationsView) -> Map<Seq<char>, Json> {
    map![
        "readonly"@ => Json::Bool(a.readonly),
        "destructive"@ => Json::Bool(a.destructive),
        "idempotent"@ => Json::Bool(a.idempotent),
        "requires_approval"@ => Json::Bool(a.requires_approval),
        "open_world"@ => Json::Bool(a.open_world),
        "streaming"@ => Json::Bool(a.streaming),
        "cacheable"@ => Json::Bool(a.cacheable),
        "cache_ttl"@ => Json::PosInt(a.cache_ttl),
        "cache_key_fields"@ => match a.cache_key_fields {
            Some(s) => Json::Arr(errors::json_texts(s)),
            None => Json::Null,
        },
        "paginated"@ => Json::Bool(a.paginated),
        "pagination_style"@ => Json::Str(a.pagination_style),
        "extra"@ => Json::Obj(a.extra)
    ]
}

/// The names of the annotations are different.
proof fn lemma_annotation_names()
    ensures
        "extra"@.len() == 5,
        "readonly"@.len() == 8,
        "paginated"@.len() == 9,
        "paginated"@[0] == 'p',
        "streaming"@.len() == 9,
        "streaming"@[0] == 's',
        "cacheable"@.len() == 9,
        "cacheable"@[0] == 'c',
        "cacheable"@[5] == 'a',
        "cache_ttl"@.len() == 9,
        "cache_ttl"@[0] == 'c',
        "cache_ttl"@[5] == '_',
        "idempotent"@.len() == 10,
        "idempotent"@[0] == 'i',
        "open_world"@.len() == 10,
        "open_world"@[0] == 'o',
        "destructive"@.len() == 11,
        "cache_key_fields"@.len() == 16,
        "cache_key_fields"@[0] == 'c',
        "pagination_style"@.len() == 16,
        "pagination_style"@[0] == 'p',
        "requires_approval"@.len() == 17,
{
    reveal_strlit("extra");
    reveal_strlit("readonly");
    reveal_strlit("paginated");
    reveal_strlit("streaming");
    reveal_strlit("cacheable");
    reveal_strlit("cache_ttl");
    reveal_strlit("idempotent");
    reveal_strlit("open_world");
    reveal_strlit("destructive");
    reveal_strlit("cache_key_fields");
    reveal_strlit("pagination_style");
    reveal_strlit("requires_approval");
}

/// Annotations read back from their JSON object as they were.
pub proof fn annotations_round_trip(a: AnnotationsView)
    ensures
        annotations_of(annotation_fields(a)) == a,
        forall|k: Seq<char>| #[trigger]
            annotation_fields(a).contains_key(k) ==> entry_fits(k, annotation_fields(a)[k]),
{
    lemma_annotation_names();
    let m = annotation_fields(a);
    assert(loose_entries(m) =~= Map::empty());
    assert(annotations_of(m).extra =~= a.extra);
    if let Some(s) = a.cache_key_fields {
        assert(text_list(errors::json_texts(s)) =~= s);
    }
    assert(annotations_of(m) =~= a);
}

fn is_known(k: &str) -> (r: bool)
    ensures
        r == (is_annotation_name(k@) || k@ == "extra"@),
{
    str_eq(k, "readonly") || str_eq(k, "destructive") || str_eq(k, "idempotent") || str_eq(k, "requires_approval")
        || str_eq(k, "open_world") || str_eq(k, "streaming") || str_eq(k, "cacheable") || str_eq(k, "cache_ttl")
        || str_eq(k, "cache_key_fields") || str_eq(k, "paginated") || str_eq(k, "pagination_style") || str_eq(k, "extra")
}

/// The loose entries under those of the nested object.
fn gather_extra(m: &StrMap<JsonValue>, nested: StrMap<JsonValue>) -> (r: StrMap<JsonValue>)
    ensures
        json::object_view(r) == loose_entries(json::object_view(*m)).union_prefer_right(json::object_view(nested)),
{
    let ghost map = json::object_view(*m);
    let ghost inner = json::object_view(nested);
    let ghost want = loose_entries(map).union_prefer_right(inner);
    let n: usize = m.len();
    let mut out = nested;
    let mut i: usize = 0;
    proof {
        json::lemma_object_view(*m);
    }
    while i < n
        invariant
            i <= n,
            n == m.pairs().len(),
            map == json::object_view(*m),
            want == loose_entries(map).union_prefer_right(inner),
            map.dom() == m@.dom(),
            forall|j: int| 0 <= j < n ==> map.contains_key((#[trigger] m.pairs()[j]).0)
                && map[m.pairs()[j].0] == m.pairs()[j].1@,
            forall|k: Seq<char>| #[trigger] json::object_view(out).contains_key(k) ==> want.contains_key(k)
                && json::object_view(out)[k] == want[k],
            forall|k: Seq<char>| inner.contains_key(k) ==> #[trigger] json::object_view(out).contains_key(k),
            forall|j: int| 0 <= j < i && loose_entries(map).contains_key((#[trigger] m.pairs()[j]).0) ==> json::object_view(
                out,
            ).contains_key(m.pairs()[j].0),
        decreases n - i,
    {
        let key = m.key_at(i);
        let value = m.value_at(i);
        if !is_known(key.as_str()) {
            match lookup(&out, key.as_str()) {
                Some(_) => {},
                None => {
                    put(&mut out, key.as_str(), value.clone());
                },
            }
        }
        i = i + 1;
    }
    proof {
        assert forall|k: Seq<char>| want.contains_key(k) implies json::object_view(out).contains_key(k) by {
            if !inner.contains_key(k) {
                let j = strmap::key_index(m.pairs(), k);
                assert(m@.contains_key(k));
                assert(m.pairs()[j].0 == k);
            }
        }
        assert(json::object_view(out) =~= want);
    }
    out
}

/// An example of a call, for documentation.
#[derive(Debug)]
pub struct ModuleExample {
    pub title: String,
    pub description: Option<String>,
    pub inputs: JsonValue,
    pub output: JsonValue,
}

/// Result of validating one aspect.
#[derive(Debug)]
pub struct ValidationResult {
    pub valid: bool,
    pub errors: Vec<String>,
    pub warnings: Vec<String>,
}

/// Result of one preflight check.
#[derive(Debug)]
pub struct PreflightCheckResult {
    pub check: String,
    pub passed: bool,
    pub error: Option<JsonValue>,
    pub warnings: Vec<String>,
}

/// The mathematical contents of a check.
#[verifier::ext_equal]
pub struct CheckView {
    pub check: Seq<char>,
    pub passed: bool,
    pub error: Option<Json>,
    pub warnings: Seq<Seq<char>>,
}

impl View for PreflightCheckResult {
    type V = CheckView;

    open spec fn view(&self) -> CheckView {
        CheckView {
            check: self.check@,
            passed: self.passed,
            error: match self.error {
                Some(v) => Some(v@),
                None => None,
            },
            warnings: text::texts(self.warnings@),
        }
    }
}

/// The mathematical contents of checks.
pub open spec fn checks_view(s: Seq<PreflightCheckResult>) -> Seq<CheckView> {
    Seq::new(s.len(), |i: int| s[i]@)
}

/// Whether every check passed.
pub open spec fn all_passed(s: Seq<CheckView>) -> bool {
    forall|i: int| 0 <= i < s.len() ==> (#[trigger] s[i]).passed
}

/// The result of a preflight.
#[derive(Debug)]
pub struct PreflightResult {
    pub valid: bool,
    pub checks: Vec<PreflightCheckResult>,
    pub requires_approval: bool,
    pub predicted_changes: Vec<JsonValue>,
}

/// The mathematical contents of a preflight result.
#[verifier::ext_equal]
pub struct PreflightView {
    pub valid: bool,
    pub checks: Seq<CheckView>,
    pub requires_approval: bool,
    pub predicted_changes: Seq<Json>,
}

impl View for PreflightResult {
    type V = PreflightView;

    open spec fn view(&self) -> PreflightView {
        PreflightView {
            valid: self.valid,
            checks: checks_view(self.checks@),
            requires_approval: self.requires_approval,
            predicted_changes: json::values_view(self.predicted_changes@),
        }
    }
}

/// The checks that failed, in order.
pub open spec fn failed_checks(s: Seq<CheckView>) -> Seq<CheckView>
    decreases s.len(),
{
    if s.len() == 0 {
        Seq::empty()
    } else if s.last().passed {
        failed_checks(s.drop_last())
    } else {
        failed_checks(s.drop_last()).push(s.last())
    }
}

/// A check as a JSON object.
pub open spec fn check_fields(c: CheckView) -> Map<Seq<char>, Json> {
    let m = map![
        "check"@ => Json::Str(c.check),
        "passed"@ => Json::Bool(c.passed),
        "warnings"@ => Json::Arr(errors::json_texts(c.warnings))
    ];
    errors::put_opt(m, "error"@, c.error)
}

/// Checks as JSON objects.
pub open spec fn checks_json(s: Seq<CheckView>) -> Seq<Json> {
    Seq::new(s.len(), |i: int| Json::Obj(check_fields(s[i])))
}

impl PreflightCheckResult {
    /// The JSON object of a check, without an error where there is none.
    pub fn to_json(&self) -> (r: JsonValue)
        ensures
            r@ == Json::Obj(check_fields(self@)),
    {
        broadcast use crate::json::lemma_value_view;
        let mut m = empty_object();
        put(&mut m, "check", JsonValue::str(self.check.as_str()));
        put(&mut m, "passed", JsonValue::Bool(self.passed));
        put(&mut m, "warnings", JsonValue::Array(text_values(&self.warnings)));
        match &self.error {
            Some(v) => {
                put(&mut m, "error", v.clone());
            },
            None => {},
        }
        JsonValue::Object(m)
    }
}

impl PreflightResult {
    /// The checks that failed.
    pub fn errors(&self) -> (r: Vec<&PreflightCheckResult>)
        ensures
            Seq::new(r@.len(), |i: int| r@[i]@) == failed_checks(self@.checks),
    {
        let mut out: Vec<&PreflightCheckResult> = Vec::new();
        let mut i: usize = 0;
        assert(Seq::new(out@.len(), |j: int| out@[j]@) =~= Seq::<CheckView>::empty());
        assert(self@.checks.subrange(0, 0) =~= Seq::empty());
        while i < self.checks.len()
            invariant
                i <= self.checks.len(),
                Seq::new(out@.len(), |j: int| out@[j]@) == failed_checks(self@.checks.subrange(0, i as int)),
            decreases self.checks.len() - i,
        {
            let ghost before = Seq::new(out@.len(), |j: int| out@[j]@);
            let ghost part = self@.checks.subrange(0, i + 1);
            assert(part.drop_last() =~= self@.checks.subrange(0, i as int));
            assert(part.last() == self.checks@[i as int]@);
            if !self.checks[i].passed {
                out.push(&self.checks[i]);
                assert(Seq::new(out@.len(), |j: int| out@[j]@) =~= before.push(self.checks@[i as int]@));
            }
            i = i + 1;
        }
        assert(self@.checks.subrange(0, self.checks@.len() as int) =~= self@.checks);
        out
    }

    /// The checks that failed, as JSON objects.
    pub fn errors_as_json(&self) -> (r: Vec<JsonValue>)
        ensures
            json::values_view(r@) == checks_json(failed_checks(self@.checks)),
    {
        let failed = self.errors();
        let ghost want = failed_checks(self@.checks);
        let mut out: Vec<JsonValue> = Vec::new();
        let mut i: usize = 0;
        while i < failed.len()
            invariant
                i <= failed.len(),
                out@.len() == i,
                want == Seq::new(failed@.len(), |j: int| failed@[j]@),
                forall|j: int| 0 <= j < i ==> (#[trigger] out@[j])@ == Json::Obj(check_fields(want[j])),
            decreases failed.len() - i,
        {
            assert(want[i as int] == failed@[i as int]@);
            out.push(failed[i].to_json());
            i = i + 1;
        }
        assert(json::values_view(out@) =~= checks_json(want));
        out
    }
}

/// No check failed if and only if all passed.
pub proof fn no_failure_means_all_passed(s: Seq<CheckView>)
    ensures
        failed_checks(s).len() == 0 <==> all_passed(s),
    decreases s.len(),
{
    if s.len() > 0 {
        no_failure_means_all_passed(s.drop_last());
        assert(all_passed(s) <==> all_passed(s.drop_last()) && s.last().passed) by {
            if all_passed(s.drop_last()) && s.last().passed {
                assert forall|i: int| 0 <= i < s.len() implies (#[trigger] s[i]).passed by {
                    if i < s.len() - 1 {
                        assert(s.drop_last()[i].passed);
                    }
                }
            }
            if all_passed(s) {
                assert forall|i: int| 0 <= i < s.drop_last().len() implies (#[trigger] s.drop_last()[i]).passed by {
                    assert(s[i].passed);
                }
            }
        }
    }
}

/// The failed checks are those that did not pass, all of them in their order.
pub proof fn failed_checks_are_those_that_did_not_pass(s: Seq<CheckView>)
    ensures
        failed_checks(s) == s.filter(|c: CheckView| !c.passed),
        forall|i: int| 0 <= i < s.len() && !(#[trigger] s[i]).passed ==> failed_checks(s).contains(s[i]),
        forall|i: int| 0 <= i < failed_checks(s).len() ==> !(#[trigger] failed_checks(s)[i]).passed,
    decreases s.len(),
{
    reveal(Seq::filter);
    if s.len() > 0 {
        let p = s.drop_last();
        failed_checks_are_those_that_did_not_pass(p);
        assert forall|i: int| 0 <= i < s.len() && !(#[trigger] s[i]).passed implies failed_checks(s).contains(s[i]) by {
            if i < p.len() {
                assert(p[i] == s[i]);
                assert(failed_checks(p).contains(s[i]));
                let j = choose|j: int| 0 <= j < failed_checks(p).len() && failed_checks(p)[j] == s[i];
                assert(failed_checks(s)[j] == s[i]);
            } else {
                assert(failed_checks(s).last() == s[i]);
            }
        }
        assert forall|i: int| 0 <= i < failed_checks(s).len() implies !(#[trigger] failed_checks(s)[i]).passed by {
            if i < failed_checks(p).len() {
                assert(failed_checks(s)[i] == failed_checks(p)[i]);
            }
        }
    }
}

/// A check is written with its name, whether it passed, its warnings, and its
/// error where there is one.
pub proof fn a_check_is_written_whole(c: CheckView)
    ensures
        ({
            let m = check_fields(c);
            &&& m.contains_key("check"@) && m["check"@] == Json::Str(c.check)
            &&& m.contains_key("passed"@) && m["passed"@] == Json::Bool(c.passed)
            &&& m.contains_key("warnings"@) && (m["warnings"@] matches Json::Arr(w) && w.len() == c.warnings.len()
                && forall|i: int| 0 <= i < w.len() ==> #[trigger] w[i] == Json::Str(c.warnings[i]))
            &&& c.error is Some ==> m.contains_key("error"@) && m["error"@] == c.error->0
            &&& c.error is None ==> !m.contains_key("error"@)
        }),
{
    reveal_strlit("check");
    reveal_strlit("passed");
    reveal_strlit("warnings");
    reveal_strlit("error");
    assert("check"@.len() == 5 && "passed"@.len() == 6 && "warnings"@.len() == 8 && "error"@.len() == 5);
    assert("check"@[0] != "error"@[0]);
}

/// An annotation that is there is read under its own name; one that is not there
/// has its default.
pub proof fn annotations_are_read_under_their_names(m: Map<Seq<char>, Json>, b: bool, n: int, t: Seq<char>)
    ensures
        m.contains_key("readonly"@) && m["readonly"@] == Json::Bool(b) ==> annotations_of(m).readonly == b,
        m.contains_key("destructive"@) && m["destructive"@] == Json::Bool(b) ==> annotations_of(m).destructive == b,
        m.contains_key("idempotent"@) && m["idempotent"@] == Json::Bool(b) ==> annotations_of(m).idempotent == b,
        m.contains_key("requires_approval"@) && m["requires_approval"@] == Json::Bool(b) ==> annotations_of(
            m,
        ).requires_approval == b,
        m.contains_key("open_world"@) && m["open_world"@] == Json::Bool(b) ==> annotations_of(m).open_world == b,
        m.contains_key("streaming"@) && m["streaming"@] == Json::Bool(b) ==> annotations_of(m).streaming == b,
        m.contains_key("cacheable"@) && m["cacheable"@] == Json::Bool(b) ==> annotations_of(m).cacheable == b,
        m.contains_key("paginated"@) && m["paginated"@] == Json::Bool(b) ==> annotations_of(m).paginated == b,
        m.contains_key("cache_ttl"@) && m["cache_ttl"@] == Json::PosInt(n) ==> annotations_of(m).cache_ttl == n,
        m.contains_key("pagination_style"@) && m["pagination_style"@] == Json::Str(t) ==> annotations_of(m).pagination_style
            == t,
        ({
            let none = annotations_of(Map::empty());
            &&& !none.readonly && !none.destructive && !none.idempotent && !none.requires_approval && none.open_world
            &&& !none.streaming && !none.cacheable && !none.paginated && none.cache_ttl == 0
            &&& none.cache_key_fields is None && none.pagination_style == "cursor"@ && none.extra == Map::<
                Seq<char>,
                Json,
            >::empty()
        }),
{
    assert(annotations_of(Map::empty()).extra =~= Map::empty());
}

/// A name that is no annotation goes to the extras with its value, unless the
/// extras give the name a value themselves, which then stands.
pub proof fn other_names_are_extras(m: Map<Seq<char>, Json>, k: Seq<char>)
    requires
        m.contains_key(k),
        !is_annotation_name(k),
        k != "extra"@,
    ensures
        annotations_of(m).extra.contains_key(k),
        (m.contains_key("extra"@) ==> !(m["extra"@] matches Json::Obj(x) && x.contains_key(k))) ==> annotations_of(m).extra[k]
            == m[k],
        m.contains_key("extra"@) && (m["extra"@] matches Json::Obj(x) && x.contains_key(k)) ==> annotations_of(m).extra[k]
            == m["extra"@]->Obj_0[k],
{
}

/// The names of annotations are no extras.
pub proof fn annotations_are_no_extras(m: Map<Seq<char>, Json>)
    requires
        m.contains_key("extra"@) ==> !(m["extra"@] is Obj),
    ensures
        forall|k: Seq<char>| #[trigger] annotations_of(m).extra.contains_key(k) ==> m.contains_key(k) && k != "readonly"@ && k
            != "destructive"@ && k != "idempotent"@ && k != "requires_approval"@ && k != "open_world"@ && k != "streaming"@ && k
            != "cacheable"@ && k != "paginated"@ && k != "cache_ttl"@ && k != "cache_key_fields"@ && k != "pagination_style"@,
{
}

/// The fields of the cache key are read in the order of their list.
pub proof fn cache_keys_are_read_in_order(m: Map<Seq<char>, Json>, s: Seq<Json>, i: int, t: Seq<char>)
    requires
        m.contains_key("cache_key_fields"@),
        m["cache_key_fields"@] == Json::Arr(s),
        0 <= i < s.len(),
        s[i] == Json::Str(t),
    ensures
        annotations_of(m).cache_key_fields matches Some(f) && f.len() == s.len() && f[i] == t,
{
}

} // verus!
