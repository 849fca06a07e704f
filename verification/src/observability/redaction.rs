//! Redaction rules that can be configured.
use vstd::prelude::*;
use vstd::string::*;
use crate::events::subscribers::read_patterns;
use crate::executor::redact::Step;
use crate::json::{empty_object, Json, JsonValue, put};
use crate::strmap::StrMap;
use crate::text::{cat3, cat4, contains, is_white_space, str_eq, to_chars, to_lower};
use crate::errors;
use crate::events::subscribers;
use crate::executor::redact;
use crate::globs;
use crate::json;
use crate::regexes;
use crate::strmap;
use crate::text;

verus! {

/// What stands in place of a redacted value, unless configured otherwise.
pub const DEFAULT_REPLACEMENT: &'static str = "***REDACTED***";

/// Setting that lists sensitive names.
pub const CANONICAL_SENSITIVE_KEYS: &'static str = "obs.redaction.sensitive_keys";

/// Setting that lists patterns of sensitive values.
pub const CANONICAL_REGEX_PATTERNS: &'static str = "obs.redaction.regex_patterns";

/// Setting that names the replacement.
pub const CANONICAL_REPLACEMENT: &'static str = "obs.redaction.replacement";

/// Deprecated name of the setting that lists sensitive names.
pub const LEGACY_SENSITIVE_KEYS: &'static str = "observability.redaction.sensitive_keys";

/// Deprecated name of the setting that lists patterns of sensitive values.
pub const LEGACY_REGEX_PATTERNS: &'static str = "observability.redaction.regex_patterns";

/// Deprecated name of the setting that names the replacement.
pub const LEGACY_REPLACEMENT: &'static str = "observability.redaction.replacement";

/// Whether a field carries an identifier by which log entries are correlated;
/// its own value is never redacted.
pub open spec fn is_never_redacted(name: Seq<char>) -> bool {
    name == "trace_id"@ || name == "caller_id"@ || name == "target_id"@ || name == "module_id"@ || name == "span_id"@
}

fn is_protected(name: &str) -> (r: bool)
    ensures
        r == is_never_redacted(name@),
{
    str_eq(name, "trace_id") || str_eq(name, "caller_id") || str_eq(name, "target_id") || str_eq(name, "module_id")
        || str_eq(name, "span_id")
}

/// The names that are sensitive unless configured otherwise.
pub open spec fn default_keys() -> Seq<Seq<char>> {
    seq![
        "_secret_*"@,
        "password"@,
        "passwd"@,
        "secret"@,
        "token"@,
        "api_key"@,
        "apikey"@,
        "apiKey"@,
        "access_key"@,
        "private_key"@,
        "authorization"@,
        "auth"@,
        "credential"@,
        "cookie"@,
        "session"@,
        "bearer"@,
    ]
}

/// The names that are sensitive unless configured otherwise.
pub fn default_sensitive_keys() -> (r: Vec<String>)
    ensures
        text::texts(r@) == default_keys(),
{
    let mut v: Vec<String> = Vec::new();
    v.push("_secret_*".to_owned());
    v.push("password".to_owned());
    v.push("passwd".to_owned());
    v.push("secret".to_owned());
    v.push("token".to_owned());
    v.push("api_key".to_owned());
    v.push("apikey".to_owned());
    v.push("apiKey".to_owned());
    v.push("access_key".to_owned());
    v.push("private_key".to_owned());
    v.push("authorization".to_owned());
    v.push("auth".to_owned());
    v.push("credential".to_owned());
    v.push("cookie".to_owned());
    v.push("session".to_owned());
    v.push("bearer".to_owned());
    assert(text::texts(v@) =~= default_keys());
    v
}

// ---------------------------------------------------------------------------
// Names
// ---------------------------------------------------------------------------

/// Whether a character is an upper-case letter of ASCII.
pub open spec fn is_upper(c: char) -> bool {
    'A' <= c && c <= 'Z'
}

/// Whether a character is a lower-case letter or a digit of ASCII.
pub open spec fn is_lower_or_digit(c: char) -> bool {
    ('a' <= c && c <= 'z') || ('0' <= c && c <= '9')
}

/// A name with an underscore wherever an upper-case letter follows a lower-case
/// letter or a digit.
pub open spec fn split_words(s: Seq<char>) -> Seq<char>
    decreases s.len(),
{
    if s.len() == 0 {
        Seq::empty()
    } else {
        let c = s.last();
        let head = split_words(s.drop_last());
        if is_upper(c) && s.len() >= 2 && is_lower_or_digit(s[s.len() - 2]) {
            head.push('_').push(c)
        } else {
            head.push(c)
        }
    }
}

/// A text with underscores for hyphens and white space.
pub open spec fn with_underscores(s: Seq<char>) -> Seq<char> {
    Seq::new(
        s.len(),
        |i: int|
            if s[i] == '-' || text::white_space(s[i]) {
                '_'
            } else {
                s[i]
            },
    )
}

/// A name in the form in which names are compared.
pub open spec fn normalized_key(s: Seq<char>) -> Seq<char> {
    with_underscores(text::lowercase(split_words(s)))
}

fn underscored(s: &str) -> (r: String)
    ensures
        r@ == with_underscores(s@),
{
    let c = to_chars(s);
    let mut out = String::new();
    let mut i: usize = 0;
    while i < c.len()
        invariant
            i <= c.len(),
            c@ == s@,
            out@ == with_underscores(s@).subrange(0, i as int),
        decreases c.len() - i,
    {
        if c[i] == '-' || is_white_space(c[i]) {
            out.push('_');
        } else {
            out.push(c[i]);
        }
        i = i + 1;
        assert(out@ =~= with_underscores(s@).subrange(0, i as int));
    }
    assert(out@ =~= with_underscores(s@));
    out
}

/// A name in the form in which names are compared: in lower case, with
/// underscores between words.
pub fn normalize_key_for_match(s: &str) -> (r: String)
    ensures
        r@ == normalized_key(s@),
        is_normal_key(r@),
        normalized_key(r@) == r@,
{
    let c = to_chars(s);
    let mut out = String::new();
    let mut i: usize = 0;
    let mut prev_lower = false;
    assert(c@.subrange(0, 0) =~= Seq::empty());
    while i < c.len()
        invariant
            i <= c.len(),
            c@ == s@,
            out@ == split_words(s@.subrange(0, i as int)),
            prev_lower == (i > 0 && is_lower_or_digit(s@[i - 1])),
        decreases c.len() - i,
    {
        let ghost part = s@.subrange(0, i + 1);
        assert(part.drop_last() =~= s@.subrange(0, i as int));
        let ch = c[i];
        if 'A' <= ch && ch <= 'Z' && prev_lower {
            out.push('_');
        }
        out.push(ch);
        prev_lower = ('a' <= ch && ch <= 'z') || ('0' <= ch && ch <= '9');
        i = i + 1;
    }
    assert(s@.subrange(0, s@.len() as int) =~= s@);
    let low = to_lower(out.as_str());
    let r = underscored(low.as_str());
    proof {
        assert(text::is_underscored(r@, low@));
        assert forall|k: int| 0 <= k < r@.len() implies !is_upper(#[trigger] r@[k]) && r@[k] != '-' && !text::white_space(r@[k]) by {
            assert(r@[k] == with_underscores(low@)[k]);
            assert(!('A' <= low@[k] && low@[k] <= 'Z'));
        }
        lemma_no_words(r@);
        assert(with_underscores(r@) =~= r@);
    }
    r
}

/// Whether a name is in the form in which names are compared, as far as its
/// characters go: no upper-case letter of ASCII, no hyphen and no white space.
pub open spec fn is_normal_key(s: Seq<char>) -> bool {
    forall|i: int| 0 <= i < s.len() ==> !is_upper(#[trigger] s[i]) && s[i] != '-' && !text::white_space(s[i])
}

/// A name without upper-case letters is one word.
proof fn lemma_no_words(s: Seq<char>)
    requires
        forall|i: int| 0 <= i < s.len() ==> !is_upper(#[trigger] s[i]),
    ensures
        split_words(s) == s,
    decreases s.len(),
{
    if s.len() > 0 {
        let d = s.drop_last();
        assert forall|i: int| 0 <= i < d.len() implies !is_upper(#[trigger] d[i]) by {
            assert(d[i] == s[i]);
        }
        lemma_no_words(d);
        assert(!is_upper(s[s.len() - 1]));
        assert(d.push(s.last()) =~= s);
    } else {
        assert(split_words(s) =~= s);
    }
}

// ---------------------------------------------------------------------------
// Rules
// ---------------------------------------------------------------------------

/// A pattern of values.
#[derive(Debug)]
pub struct ValuePattern {
    pub pattern: String,
    pub ignore_case: bool,
}

/// Redaction rules.
#[derive(Debug)]
pub struct RedactionConfig {
    /// Shell patterns of sensitive names.
    pub field_globs: Vec<String>,
    /// Parts of sensitive names, in the form in which names are compared.
    pub field_substrings: Vec<String>,
    /// Patterns of sensitive values.
    pub value_patterns: Vec<ValuePattern>,
    pub replacement: String,
}

/// The mathematical contents of rules.
#[verifier::ext_equal]
pub struct RulesView {
    pub globs: Seq<Seq<char>>,
    pub substrings: Seq<Seq<char>>,
    pub values: Seq<(Seq<char>, bool)>,
    pub replacement: Seq<char>,
}

/// The contents of patterns.
pub open spec fn patterns_view(s: Seq<ValuePattern>) -> Seq<(Seq<char>, bool)> {
    Seq::new(s.len(), |i: int| (s[i].pattern@, s[i].ignore_case))
}

impl View for RedactionConfig {
    type V = RulesView;

    open spec fn view(&self) -> RulesView {
        RulesView {
            globs: text::texts(self.field_globs@),
            substrings: text::texts(self.field_substrings@),
            values: patterns_view(self.value_patterns@),
            replacement: self.replacement@,
        }
    }
}

/// Whether a shell pattern fits a name or its lower-case form.
pub open spec fn glob_hits(pattern: Seq<char>, name: Seq<char>) -> bool {
    globs::glob_match(pattern, name) == Some(true) || globs::glob_match(pattern, text::lowercase(name)) == Some(true)
}

/// Whether a name is sensitive.
pub open spec fn name_is_sensitive(r: RulesView, name: Seq<char>) -> bool {
    (exists|i: int| 0 <= i < r.globs.len() && glob_hits(#[trigger] r.globs[i], name)) || (exists|i: int|
        0 <= i < r.substrings.len() && text::has_infix(normalized_key(name), #[trigger] r.substrings[i]))
}

/// Whether a value is sensitive.
pub open spec fn value_is_sensitive(r: RulesView, value: Seq<char>) -> bool {
    exists|i: int| 0 <= i < r.values.len() && regexes::regex_match((#[trigger] r.values[i]).0, r.values[i].1, value) == Some(true)
}

/// Whether the value of a field is exempt.
pub open spec fn is_exempt(field: Option<Seq<char>>) -> bool {
    field matches Some(n) && is_never_redacted(n)
}

/// A value with what is sensitive replaced: the value of a field with a
/// sensitive name, and every text that a value pattern matches. The own value of
/// an exempt field stays.
pub open spec fn cleaned(r: RulesView, v: Json, field: Option<Seq<char>>) -> Json
    decreases v,
{
    if field is Some && !is_exempt(field) && name_is_sensitive(r, field->0) {
        Json::Str(r.replacement)
    } else {
        match v {
            Json::Obj(m) => Json::Obj(
                Map::new(
                    |k: Seq<char>| m.contains_key(k),
                    |k: Seq<char>|
                        if m.contains_key(k) {
                            cleaned(r, m[k], Some(k))
                        } else {
                            Json::Null
                        },
                ),
            ),
            Json::Arr(s) => Json::Arr(
                Seq::new(
                    s.len(),
                    |i: int|
                        if 0 <= i < s.len() {
                            cleaned(r, s[i], None)
                        } else {
                            Json::Null
                        },
                ),
            ),
            Json::Str(s) => if !is_exempt(field) && value_is_sensitive(r, s) {
                Json::Str(r.replacement)
            } else {
                v
            },
            _ => v,
        }
    }
}

/// An identifier by which log entries are correlated stays as it is, whatever
/// the rules.
pub proof fn correlation_identifiers_stay(r: RulesView, name: Seq<char>, v: Json)
    requires
        is_never_redacted(name),
        !(v is Obj),
        !(v is Arr),
    ensures
        cleaned(r, v, Some(name)) == v,
{
}

/// The value of a field with a sensitive name is replaced, whatever it holds.
pub proof fn sensitive_names_hide_their_values(r: RulesView, name: Seq<char>, v: Json)
    requires
        name_is_sensitive(r, name),
        !is_never_redacted(name),
    ensures
        cleaned(r, v, Some(name)) == Json::Str(r.replacement),
{
}

/// Redacting what is redacted changes nothing.
pub proof fn redacting_again_changes_nothing(r: RulesView, v: Json, field: Option<Seq<char>>)
    ensures
        cleaned(r, cleaned(r, v, field), field) == cleaned(r, v, field),
    decreases v,
{
    let once = cleaned(r, v, field);
    if field is Some && !is_exempt(field) && name_is_sensitive(r, field->0) {
    } else {
        match v {
            Json::Obj(m) => {
                let a = once->Obj_0;
                let b = cleaned(r, once, field)->Obj_0;
                assert forall|k: Seq<char>| #[trigger] a.contains_key(k) implies a[k] == b[k] by {
                    assert(m.contains_key(k));
                    redacting_again_changes_nothing(r, m[k], Some(k));
                }
                assert(a =~= b);
            },
            Json::Arr(s) => {
                let a = once->Arr_0;
                let b = cleaned(r, once, field)->Arr_0;
                assert forall|i: int| 0 <= i < a.len() implies a[i] == b[i] by {
                    redacting_again_changes_nothing(r, s[i], None);
                }
                assert(a =~= b);
            },
            _ => {},
        }
    }
}

/// Whether an entry of the sensitive names is a shell pattern.
pub open spec fn is_glob(key: Seq<char>) -> bool {
    key.contains('*') || key.contains('?') || key.contains('[')
}

/// Rules with one more sensitive name: a shell pattern where it is one and
/// compiles, else a part of a name.
pub open spec fn with_key(r: RulesView, key: Seq<char>) -> RulesView {
    if key.len() == 0 {
        r
    } else if is_glob(key) {
        if globs::glob_error(key) is None {
            RulesView { globs: r.globs.push(key), ..r }
        } else {
            r
        }
    } else {
        RulesView { substrings: r.substrings.push(normalized_key(key)), ..r }
    }
}

/// Rules with more sensitive names.
pub open spec fn with_keys(r: RulesView, keys: Seq<Seq<char>>) -> RulesView
    decreases keys.len(),
{
    if keys.len() == 0 {
        r
    } else {
        with_key(with_keys(r, keys.drop_last()), keys.last())
    }
}

/// Rules that redact nothing.
pub open spec fn no_rules(replacement: Seq<char>) -> RulesView {
    RulesView { globs: Seq::empty(), substrings: Seq::empty(), values: Seq::empty(), replacement }
}

/// The patterns of a list that compile, each without regard to case.
pub open spec fn valid_patterns(s: Seq<Seq<char>>) -> Seq<(Seq<char>, bool)>
    decreases s.len(),
{
    if s.len() == 0 {
        Seq::empty()
    } else if regexes::regex_error(s.last(), true) is None {
        valid_patterns(s.drop_last()).push((s.last(), true))
    } else {
        valid_patterns(s.drop_last())
    }
}

/// A setting, under its name and under its deprecated name.
#[derive(Debug)]
pub struct Setting {
    pub canonical: Option<JsonValue>,
    pub legacy: Option<JsonValue>,
}

/// A value that is there and not null.
pub open spec fn configured(v: Option<JsonValue>) -> Option<Json> {
    match v {
        Some(x) => if x@ is Null {
            None
        } else {
            Some(x@)
        },
        None => None,
    }
}

/// The value of a setting.
pub open spec fn setting_value(s: Setting) -> Option<Json> {
    match configured(s.canonical) {
        Some(v) => Some(v),
        None => configured(s.legacy),
    }
}

/// Whether a setting is taken from its deprecated name.
pub open spec fn uses_legacy(s: Setting) -> bool {
    configured(s.canonical) is None && configured(s.legacy) is Some
}

/// The rules of a configuration: a list of sensitive names replaces the default
/// one, even if it is empty.
pub open spec fn rules_of(keys: Setting, patterns: Setting, replacement: Setting) -> RulesView {
    let base = RulesView {
        globs: Seq::empty(),
        substrings: Seq::empty(),
        values: match setting_value(patterns) {
            Some(Json::Arr(a)) => valid_patterns(subscribers::string_items(a)),
            _ => Seq::empty(),
        },
        replacement: match setting_value(replacement) {
            Some(Json::Str(s)) => s,
            _ => DEFAULT_REPLACEMENT@,
        },
    };
    match setting_value(keys) {
        Some(Json::Arr(a)) => with_keys(base, subscribers::string_items(a)),
        _ => with_keys(base, default_keys()),
    }
}

/// The deprecated names from which a configuration was taken.
pub open spec fn legacy_names(keys: Setting, patterns: Setting, replacement: Setting) -> Seq<Seq<char>> {
    (if uses_legacy(keys) {
        seq![LEGACY_SENSITIVE_KEYS@]
    } else {
        Seq::empty()
    }) + (if uses_legacy(patterns) {
        seq![LEGACY_REGEX_PATTERNS@]
    } else {
        Seq::empty()
    }) + (if uses_legacy(replacement) {
        seq![LEGACY_REPLACEMENT@]
    } else {
        Seq::empty()
    })
}

/// Names one after the other, with commas between them.
pub open spec fn comma_joined(names: Seq<Seq<char>>) -> Seq<char>
    decreases names.len(),
{
    if names.len() == 0 {
        Seq::empty()
    } else if names.len() == 1 {
        names[0]
    } else {
        comma_joined(names.drop_last()) + ", "@ + names.last()
    }
}

/// What is said of deprecated names that are in use.
pub open spec fn deprecation_text(names: Seq<Seq<char>>) -> Seq<char> {
    "[apcore] Config keys "@ + comma_joined(names) + " are deprecated; use obs.redaction.sensitive_keys / obs.redaction.regex_patterns / obs.redaction.replacement instead. Legacy keys will be removed in a future release."@
}

/// What is said, and whether it has been said, where it was said before or not.
pub open spec fn notice_of(given: bool, names: Seq<Seq<char>>) -> (Option<Seq<char>>, bool) {
    if given || names.len() == 0 {
        (None, given)
    } else {
        (Some(deprecation_text(names)), true)
    }
}

/// After the first deprecated name nothing more is said.
pub proof fn deprecation_is_said_once(given: bool, first: Seq<Seq<char>>, later: Seq<Seq<char>>)
    requires
        first.len() > 0,
    ensures
        notice_of(notice_of(given, first).1, later) == (None::<Seq<char>>, true),
{
}

/// Without a deprecated name nothing is said, and the warning is still to come.
pub proof fn current_names_are_silent(given: bool)
    ensures
        notice_of(given, Seq::<Seq<char>>::empty()) == (None::<Seq<char>>, given),
{
}

fn write_joined(names: &Vec<&'static str>) -> (r: String)
    ensures
        r@ == comma_joined(errors::str_views(names@)),
{
    let mut out = "".to_owned();
    let mut i: usize = 0;
    let ghost s = errors::str_views(names@);
    proof {
        reveal_strlit("");
        assert(s.subrange(0, 0) =~= Seq::empty());
        assert(out@ =~= Seq::empty());
    }
    while i < names.len()
        invariant
            i <= names.len(),
            s == errors::str_views(names@),
            out@ == comma_joined(s.subrange(0, i as int)),
        decreases names.len() - i,
    {
        let ghost part = s.subrange(0, i + 1);
        assert(part.drop_last() =~= s.subrange(0, i as int));
        assert(part.last() == names@[i as int]@);
        if i > 0 {
            out.append(", ");
        } else {
            assert(out@ + names@[0]@ =~= names@[0]@);
        }
        out.append(names[i]);
        i = i + 1;
    }
    assert(s.subrange(0, s.len() as int) =~= s);
    out
}

/// The warning about deprecated names, which is given once.
#[derive(Debug)]
pub struct DeprecationNotice {
    pub given: bool,
}

impl DeprecationNotice {
    /// A warning that was not given yet.
    pub fn new() -> (r: Self)
        ensures
            !r.given,
    {
        DeprecationNotice { given: false }
    }

    /// The warning, where deprecated names are in use and it was not given yet.
    pub fn warn(&mut self, names: &Vec<&'static str>) -> (r: Option<String>)
        ensures
            (text::opt_text(r), final(self).given) == notice_of(old(self).given, errors::str_views(names@)),
    {
        if self.given || names.len() == 0 {
            return None;
        }
        self.given = true;
        let joined = write_joined(names);
        Some(
            cat3(
                "[apcore] Config keys ",
                joined.as_str(),
                " are deprecated; use obs.redaction.sensitive_keys / obs.redaction.regex_patterns / obs.redaction.replacement instead. Legacy keys will be removed in a future release.",
            ),
        )
    }
}

/// An empty list of sensitive names redacts nothing by name.
pub proof fn an_empty_list_is_an_override(keys: Setting, patterns: Setting, replacement: Setting, name: Seq<char>)
    requires
        setting_value(keys) == Some(Json::Arr(Seq::<Json>::empty())),
    ensures
        !name_is_sensitive(rules_of(keys, patterns, replacement), name),
{
    assert(subscribers::string_items(Seq::<Json>::empty()) =~= Seq::empty());
}

fn setting(s: &Setting) -> (r: Option<&JsonValue>)
    ensures
        subscribers::opt_value(r) == setting_value(*s),
{
    match &s.canonical {
        Some(v) => {
            if !v.is_null() {
                return Some(v);
            }
        },
        None => {},
    }
    match &s.legacy {
        Some(v) => if !v.is_null() {
            Some(v)
        } else {
            None
        },
        None => None,
    }
}

fn from_legacy(s: &Setting) -> (r: bool)
    ensures
        r == uses_legacy(*s),
{
    match &s.canonical {
        Some(v) => {
            if !v.is_null() {
                return false;
            }
        },
        None => {},
    }
    match &s.legacy {
        Some(v) => !v.is_null(),
        None => false,
    }
}

fn has_glob_char(key: &str) -> (r: bool)
    ensures
        r == is_glob(key@),
{
    let c = to_chars(key);
    let mut i: usize = 0;
    while i < c.len()
        invariant
            i <= c.len(),
            c@ == key@,
            forall|j: int| 0 <= j < i ==> (#[trigger] c@[j]) != '*' && c@[j] != '?' && c@[j] != '[',
        decreases c.len() - i,
    {
        if c[i] == '*' || c[i] == '?' || c[i] == '[' {
            assert(key@.contains(c@[i as int]));
            return true;
        }
        i = i + 1;
    }
    false
}

impl Default for RedactionConfig {
    /// No rules and an empty replacement.
    fn default() -> (r: Self)
        ensures
            r@ == no_rules(Seq::empty()),
    {
        let r = RedactionConfig {
            field_globs: Vec::new(),
            field_substrings: Vec::new(),
            value_patterns: Vec::new(),
            replacement: String::new(),
        };
        assert(r@ =~= no_rules(Seq::empty()));
        r
    }
}

impl RedactionConfig {
    /// No rules.
    pub fn new() -> (r: Self)
        ensures
            r@ == no_rules(DEFAULT_REPLACEMENT@),
    {
        let r = RedactionConfig {
            field_globs: Vec::new(),
            field_substrings: Vec::new(),
            value_patterns: Vec::new(),
            replacement: DEFAULT_REPLACEMENT.to_owned(),
        };
        assert(r@ =~= no_rules(DEFAULT_REPLACEMENT@));
        r
    }

    /// The default sensitive names.
    pub fn with_default_sensitive_keys() -> (r: Self)
        ensures
            r@ == with_keys(no_rules(DEFAULT_REPLACEMENT@), default_keys()),
    {
        let mut cfg = RedactionConfig::new();
        let keys = default_sensitive_keys();
        cfg.add_sensitive_keys(&keys);
        cfg
    }

    /// The default sensitive names.
    pub fn defaults() -> (r: Self)
        ensures
            r@ == with_keys(no_rules(DEFAULT_REPLACEMENT@), default_keys()),
    {
        RedactionConfig::with_default_sensitive_keys()
    }

    fn add_sensitive_key(&mut self, key: &str)
        ensures
            final(self)@ == with_key(old(self)@, key@),
    {
        let ghost before = self@;
        if key.is_empty() {
            return;
        }
        if has_glob_char(key) {
            match globs::pattern_fault(key) {
                Some(_) => {},
                None => {
                    self.field_globs.push(key.to_owned());
                    assert(self@.globs =~= before.globs.push(key@));
                },
            }
        } else {
            self.field_substrings.push(normalize_key_for_match(key));
            assert(self@.substrings =~= before.substrings.push(normalized_key(key@)));
        }
    }

    fn add_sensitive_keys(&mut self, keys: &Vec<String>)
        ensures
            final(self)@ == with_keys(old(self)@, text::texts(keys@)),
    {
        let ghost before = self@;
        let ghost s = text::texts(keys@);
        let mut i: usize = 0;
        assert(s.subrange(0, 0) =~= Seq::empty());
        while i < keys.len()
            invariant
                i <= keys.len(),
                s == text::texts(keys@),
                self@ == with_keys(before, s.subrange(0, i as int)),
            decreases keys.len() - i,
        {
            let ghost part = s.subrange(0, i + 1);
            assert(part.drop_last() =~= s.subrange(0, i as int));
            assert(part.last() == keys@[i as int]@);
            self.add_sensitive_key(keys[i].as_str());
            i = i + 1;
        }
        assert(s.subrange(0, s.len() as int) =~= s);
    }

    /// A builder.
    pub fn builder() -> (r: RedactionConfigBuilder)
        ensures
            r.field_patterns@.len() == 0,
            r.sensitive_keys@.len() == 0,
            r.value_patterns@.len() == 0,
            r.replacement is None,
    {
        RedactionConfigBuilder::default()
    }

    /// The rules of a configuration, and the deprecated names from which it was
    /// taken. A pattern that does not compile is left out.
    pub fn from_config(sensitive_keys: &Setting, regex_patterns: &Setting, replacement: &Setting) -> (r: (Self, Vec<&'static str>))
        ensures
            r.0@ == rules_of(*sensitive_keys, *regex_patterns, *replacement),
            errors::str_views(r.1@) == legacy_names(*sensitive_keys, *regex_patterns, *replacement),
    {
        let mut used: Vec<&'static str> = Vec::new();
        if from_legacy(sensitive_keys) {
            used.push(LEGACY_SENSITIVE_KEYS);
        }
        if from_legacy(regex_patterns) {
            used.push(LEGACY_REGEX_PATTERNS);
        }
        if from_legacy(replacement) {
            used.push(LEGACY_REPLACEMENT);
        }
        assert(errors::str_views(used@) =~= legacy_names(*sensitive_keys, *regex_patterns, *replacement));
        let mut cfg = RedactionConfig::new();
        match setting(regex_patterns) {
            Some(v) => match v.as_array() {
                Some(a) => {
                    let list = read_patterns(a);
                    cfg.value_patterns = keep_valid(&list);
                },
                None => {},
            },
            None => {},
        }
        match setting(replacement) {
            Some(v) => match v.as_str() {
                Some(s) => {
                    cfg.replacement = s.to_owned();
                },
                None => {},
            },
            None => {},
        }
        let listed = match setting(sensitive_keys) {
            Some(v) => match v.as_array() {
                Some(a) => Some(read_patterns(a)),
                None => None,
            },
            None => None,
        };
        match listed {
            Some(keys) => {
                cfg.add_sensitive_keys(&keys);
            },
            None => {
                let keys = default_sensitive_keys();
                cfg.add_sensitive_keys(&keys);
            },
        }
        (cfg, used)
    }

    /// Redact a value in place.
    pub fn redact(&self, value: &mut JsonValue)
        ensures
            final(value)@ == cleaned(self@, old(value)@, None),
    {
        let r = self.redact_inner(value, None);
        *value = r;
    }

    fn redact_inner(&self, value: &JsonValue, field: Option<&str>) -> (r: JsonValue)
        ensures
            r@ == cleaned(self@, value@, text::opt_str(field)),
        decreases value@, 1int,
    {
        broadcast use crate::json::lemma_value_view;
        let exempt = match field {
            Some(name) => is_protected(name),
            None => false,
        };
        match field {
            Some(name) => {
                if !exempt && self.field_matches(name) {
                    return JsonValue::str(self.replacement.as_str());
                }
            },
            None => {},
        }
        match value {
            JsonValue::Object(m) => {
                let out = self.redact_object(m);
                proof {
                    let want = cleaned(self@, value@, text::opt_str(field))->Obj_0;
                    assert(json::object_view(out) =~= want);
                }
                JsonValue::Object(out)
            },
            JsonValue::Array(a) => {
                let mut out: Vec<JsonValue> = Vec::new();
                let mut i: usize = 0;
                while i < a.len()
                    invariant
                        i <= a.len(),
                        out@.len() == i,
                        value@ == Json::Arr(json::values_view(a@)),
                        forall|j: int| 0 <= j < i ==> (#[trigger] out@[j])@ == cleaned(self@, a@[j]@, None),
                    decreases a.len() - i,
                {
                    proof {
                        assert(decreases_to!(value@ => value@->Arr_0));
                        assert(decreases_to!(value@->Arr_0 => value@->Arr_0[i as int]));
                    }
                    out.push(self.redact_inner(&a[i], None));
                    i = i + 1;
                }
                proof {
                    let want = cleaned(self@, value@, text::opt_str(field))->Arr_0;
                    assert(json::values_view(out@) =~= want);
                }
                JsonValue::Array(out)
            },
            JsonValue::String(s) => if !exempt && self.value_matches(s.as_str()) {
                JsonValue::str(self.replacement.as_str())
            } else {
                value.clone()
            },
            _ => value.clone(),
        }
    }

    fn redact_object(&self, data: &StrMap<JsonValue>) -> (r: StrMap<JsonValue>)
        ensures
            json::object_view(r).dom() == json::object_view(*data).dom(),
            forall|k: Seq<char>| #[trigger] json::object_view(*data).contains_key(k) ==> json::object_view(r)[k] == cleaned(
                self@,
                json::object_view(*data)[k],
                Some(k),
            ),
        decreases Json::Obj(json::object_view(*data)), 0int,
    {
        let ghost d = json::object_view(*data);
        let n: usize = data.len();
        let mut out = empty_object();
        let mut i: usize = 0;
        proof {
            json::lemma_object_view(*data);
        }
        while i < n
            invariant
                i <= n,
                n == data.pairs().len(),
                d == json::object_view(*data),
                d.dom() == data@.dom(),
                forall|j: int| 0 <= j < n ==> d.contains_key((#[trigger] data.pairs()[j]).0)
                    && d[data.pairs()[j].0] == data.pairs()[j].1@,
                forall|k: Seq<char>| #[trigger] json::object_view(out).contains_key(k) ==> d.contains_key(k)
                    && json::object_view(out)[k] == cleaned(self@, d[k], Some(k)),
                forall|j: int| 0 <= j < i ==> json::object_view(out).contains_key((#[trigger] data.pairs()[j]).0),
            decreases n - i,
        {
            let key = data.key_at(i);
            let value = data.value_at(i);
            assert(d.contains_key(key@));
            proof {
                json::lemma_entry_is_smaller(Json::Obj(d), key@);
            }
            let new_value = self.redact_inner(value, Some(key.as_str()));
            put(&mut out, key.as_str(), new_value);
            i = i + 1;
        }
        proof {
            assert forall|k: Seq<char>| d.contains_key(k) implies json::object_view(out).contains_key(k) by {
                let j = strmap::key_index(data.pairs(), k);
                assert(data@.contains_key(k));
                assert(data.pairs()[j].0 == k);
            }
            assert(json::object_view(out).dom() =~= d.dom());
        }
        out
    }

    /// Whether a name is sensitive.
    pub fn field_matches(&self, name: &str) -> (r: bool)
        ensures
            r == name_is_sensitive(self@, name@),
    {
        let lower = to_lower(name);
        let mut i: usize = 0;
        while i < self.field_globs.len()
            invariant
                i <= self.field_globs.len(),
                lower@ == text::lowercase(name@),
                forall|j: int| 0 <= j < i ==> !glob_hits(#[trigger] self@.globs[j], name@),
            decreases self.field_globs.len() - i,
        {
            let raw = globs::is_match(self.field_globs[i].as_str(), name);
            let low = globs::is_match(self.field_globs[i].as_str(), lower.as_str());
            if raw.unwrap_or(false) || low.unwrap_or(false) {
                assert(glob_hits(self@.globs[i as int], name@));
                return true;
            }
            i = i + 1;
        }
        if self.field_substrings.len() == 0 {
            return false;
        }
        let key = normalize_key_for_match(name);
        let mut j: usize = 0;
        while j < self.field_substrings.len()
            invariant
                j <= self.field_substrings.len(),
                key@ == normalized_key(name@),
                forall|x: int| 0 <= x < j ==> !text::has_infix(normalized_key(name@), #[trigger] self@.substrings[x]),
            decreases self.field_substrings.len() - j,
        {
            if contains(key.as_str(), self.field_substrings[j].as_str()) {
                assert(text::has_infix(normalized_key(name@), self@.substrings[j as int]));
                return true;
            }
            j = j + 1;
        }
        false
    }

    /// Whether a value is sensitive.
    pub fn value_matches(&self, value: &str) -> (r: bool)
        ensures
            r == value_is_sensitive(self@, value@),
    {
        let mut i: usize = 0;
        while i < self.value_patterns.len()
            invariant
                i <= self.value_patterns.len(),
                forall|j: int| 0 <= j < i ==> regexes::regex_match((#[trigger] self@.values[j]).0, self@.values[j].1, value@) != Some(
                    true,
                ),
            decreases self.value_patterns.len() - i,
        {
            let p = &self.value_patterns[i];
            let hit = regexes::is_match(p.pattern.as_str(), p.ignore_case, value);
            if hit.unwrap_or(false) {
                assert(regexes::regex_match(self@.values[i as int].0, self@.values[i as int].1, value@) == Some(true));
                return true;
            }
            i = i + 1;
        }
        false
    }

    /// What stands in place of a redacted value.
    pub fn replacement(&self) -> (r: &str)
        ensures
            r@ == self@.replacement,
    {
        self.replacement.as_str()
    }
}

fn keep_valid(list: &Vec<String>) -> (r: Vec<ValuePattern>)
    ensures
        patterns_view(r@) == valid_patterns(text::texts(list@)),
{
    let ghost s = text::texts(list@);
    let mut out: Vec<ValuePattern> = Vec::new();
    let mut i: usize = 0;
    assert(s.subrange(0, 0) =~= Seq::empty());
    assert(patterns_view(out@) =~= Seq::empty());
    while i < list.len()
        invariant
            i <= list.len(),
            s == text::texts(list@),
            patterns_view(out@) == valid_patterns(s.subrange(0, i as int)),
        decreases list.len() - i,
    {
        let ghost part = s.subrange(0, i + 1);
        assert(part.drop_last() =~= s.subrange(0, i as int));
        assert(part.last() == list@[i as int]@);
        match regexes::pattern_fault(list[i].as_str(), true) {
            Some(_) => {},
            None => {
                let ghost before = patterns_view(out@);
                out.push(ValuePattern { pattern: list[i].clone(), ignore_case: true });
                assert(patterns_view(out@) =~= before.push((list@[i as int]@, true)));
            },
        }
        i = i + 1;
    }
    assert(s.subrange(0, s.len() as int) =~= s);
    out
}

// ---------------------------------------------------------------------------
// Builder
// ---------------------------------------------------------------------------

/// Builder of redaction rules.
#[derive(Debug)]
pub struct RedactionConfigBuilder {
    pub field_patterns: Vec<String>,
    pub sensitive_keys: Vec<String>,
    pub value_patterns: Vec<String>,
    pub replacement: Option<String>,
}

/// Why rules could not be built.
#[derive(Debug)]
pub enum RedactionConfigError {
    InvalidFieldPattern { pattern: String, source: String },
    InvalidValuePattern { pattern: String, source: String },
}

impl RedactionConfigError {
    /// The error in words.
    pub fn to_text(&self) -> (r: String)
        ensures
            r@ == (match *self {
                RedactionConfigError::InvalidFieldPattern { pattern, source } => "invalid field glob pattern '"@ + pattern@
                    + "': "@ + source@,
                RedactionConfigError::InvalidValuePattern { pattern, source } => "invalid value regex '"@ + pattern@
                    + "': "@ + source@,
            }),
    {
        match self {
            RedactionConfigError::InvalidFieldPattern { pattern, source } => cat4(
                "invalid field glob pattern '",
                pattern.as_str(),
                "': ",
                source.as_str(),
            ),
            RedactionConfigError::InvalidValuePattern { pattern, source } => cat4(
                "invalid value regex '",
                pattern.as_str(),
                "': ",
                source.as_str(),
            ),
        }
    }
}

impl Default for RedactionConfigBuilder {
    fn default() -> (r: Self)
        ensures
            r.field_patterns@.len() == 0,
            r.sensitive_keys@.len() == 0,
            r.value_patterns@.len() == 0,
            r.replacement is None,
    {
        RedactionConfigBuilder {
            field_patterns: Vec::new(),
            sensitive_keys: Vec::new(),
            value_patterns: Vec::new(),
            replacement: None,
        }
    }
}

fn join(a: Vec<String>, b: Vec<String>) -> (r: Vec<String>)
    ensures
        r@ == a@ + b@,
{
    let mut out = a;
    let mut more = b;
    out.append(&mut more);
    out
}

/// The first shell pattern of a list that does not compile.
pub open spec fn first_bad_glob(s: Seq<Seq<char>>) -> Option<Seq<char>>
    decreases s.len(),
{
    if s.len() == 0 {
        None
    } else {
        match first_bad_glob(s.drop_last()) {
            Some(p) => Some(p),
            None => if globs::glob_error(s.last()) is Some {
                Some(s.last())
            } else {
                None
            },
        }
    }
}

/// The first pattern of a list that does not compile.
pub open spec fn first_bad_regex(s: Seq<Seq<char>>) -> Option<Seq<char>>
    decreases s.len(),
{
    if s.len() == 0 {
        None
    } else {
        match first_bad_regex(s.drop_last()) {
            Some(p) => Some(p),
            None => if regexes::regex_error(s.last(), false) is Some {
                Some(s.last())
            } else {
                None
            },
        }
    }
}

proof fn lemma_first_bad_glob(s: Seq<Seq<char>>, n: int)
    requires
        0 <= n <= s.len(),
        first_bad_glob(s.subrange(0, n)) is Some,
    ensures
        first_bad_glob(s) == first_bad_glob(s.subrange(0, n)),
    decreases s.len(),
{
    if n == s.len() {
        assert(s.subrange(0, n) =~= s);
    } else {
        assert(s.drop_last().subrange(0, n) =~= s.subrange(0, n));
        lemma_first_bad_glob(s.drop_last(), n);
    }
}

proof fn lemma_first_bad_regex(s: Seq<Seq<char>>, n: int)
    requires
        0 <= n <= s.len(),
        first_bad_regex(s.subrange(0, n)) is Some,
    ensures
        first_bad_regex(s) == first_bad_regex(s.subrange(0, n)),
    decreases s.len(),
{
    if n == s.len() {
        assert(s.subrange(0, n) =~= s);
    } else {
        assert(s.drop_last().subrange(0, n) =~= s.subrange(0, n));
        lemma_first_bad_regex(s.drop_last(), n);
    }
}

/// Patterns that regard case.
pub open spec fn with_case(s: Seq<Seq<char>>) -> Seq<(Seq<char>, bool)> {
    Seq::new(s.len(), |i: int| (s[i], false))
}

impl RedactionConfigBuilder {
    /// Add shell patterns of sensitive names.
    pub fn field_patterns(self, patterns: Vec<String>) -> (r: Self)
        ensures
            r.field_patterns@ == self.field_patterns@ + patterns@,
            r == (RedactionConfigBuilder { field_patterns: r.field_patterns, ..self }),
    {
        RedactionConfigBuilder {
            field_patterns: join(self.field_patterns, patterns),
            sensitive_keys: self.sensitive_keys,
            value_patterns: self.value_patterns,
            replacement: self.replacement,
        }
    }

    /// Add patterns of sensitive values.
    pub fn value_patterns(self, patterns: Vec<String>) -> (r: Self)
        ensures
            r.value_patterns@ == self.value_patterns@ + patterns@,
            r == (RedactionConfigBuilder { value_patterns: r.value_patterns, ..self }),
    {
        RedactionConfigBuilder {
            field_patterns: self.field_patterns,
            sensitive_keys: self.sensitive_keys,
            value_patterns: join(self.value_patterns, patterns),
            replacement: self.replacement,
        }
    }

    /// Add sensitive names.
    pub fn sensitive_keys(self, keys: Vec<String>) -> (r: Self)
        ensures
            r.sensitive_keys@ == self.sensitive_keys@ + keys@,
            r == (RedactionConfigBuilder { sensitive_keys: r.sensitive_keys, ..self }),
    {
        RedactionConfigBuilder {
            field_patterns: self.field_patterns,
            sensitive_keys: join(self.sensitive_keys, keys),
            value_patterns: self.value_patterns,
            replacement: self.replacement,
        }
    }

    /// Set the replacement.
    pub fn replacement(self, replacement: &str) -> (r: Self)
        ensures
            text::opt_text(r.replacement) == Some(replacement@),
            r == (RedactionConfigBuilder { replacement: r.replacement, ..self }),
    {
        RedactionConfigBuilder {
            field_patterns: self.field_patterns,
            sensitive_keys: self.sensitive_keys,
            value_patterns: self.value_patterns,
            replacement: Some(replacement.to_owned()),
        }
    }

    /// The rules; an error for the first pattern that does not compile, shell
    /// patterns first. A sensitive name whose pattern does not compile is left
    /// out.
    pub fn try_build(self) -> (r: Result<RedactionConfig, RedactionConfigError>)
        ensures
            match first_bad_glob(text::texts(self.field_patterns@)) {
                Some(p) => {
                    &&& r matches Err(RedactionConfigError::InvalidFieldPattern { pattern, source })
                    &&& pattern@ == p
                    &&& globs::glob_error(p) == Some(source@)
                },
                None => match first_bad_regex(text::texts(self.value_patterns@)) {
                    Some(p) => {
                        &&& r matches Err(RedactionConfigError::InvalidValuePattern { pattern, source })
                        &&& pattern@ == p
                        &&& regexes::regex_error(p, false) == Some(source@)
                    },
                    None => {
                        &&& r matches Ok(c)
                        &&& c@ == with_keys(
                            RulesView {
                                globs: text::texts(self.field_patterns@),
                                substrings: Seq::empty(),
                                values: with_case(text::texts(self.value_patterns@)),
                                replacement: match self.replacement {
                                    Some(t) => t@,
                                    None => DEFAULT_REPLACEMENT@,
                                },
                            },
                            text::texts(self.sensitive_keys@),
                        )
                    },
                },
            },
    {
        let ghost s = text::texts(self.field_patterns@);
        let mut i: usize = 0;
        assert(s.subrange(0, 0) =~= Seq::empty());
        while i < self.field_patterns.len()
            invariant
                i <= self.field_patterns.len(),
                s == text::texts(self.field_patterns@),
                first_bad_glob(s.subrange(0, i as int)) is None,
            decreases self.field_patterns.len() - i,
        {
            let ghost part = s.subrange(0, i + 1);
            assert(part.drop_last() =~= s.subrange(0, i as int));
            assert(part.last() == self.field_patterns@[i as int]@);
            match globs::pattern_fault(self.field_patterns[i].as_str()) {
                Some(source) => {
                    proof {
                        lemma_first_bad_glob(s, i + 1);
                    }
                    return Err(
                        RedactionConfigError::InvalidFieldPattern { pattern: self.field_patterns[i].clone(), source },
                    );
                },
                None => {},
            }
            i = i + 1;
        }
        assert(s.subrange(0, s.len() as int) =~= s);
        let ghost t = text::texts(self.value_patterns@);
        let mut values: Vec<ValuePattern> = Vec::new();
        let mut j: usize = 0;
        assert(t.subrange(0, 0) =~= Seq::empty());
        assert(patterns_view(values@) =~= with_case(t.subrange(0, 0)));
        while j < self.value_patterns.len()
            invariant
                j <= self.value_patterns.len(),
                t == text::texts(self.value_patterns@),
                first_bad_glob(text::texts(self.field_patterns@)) is None,
                first_bad_regex(t.subrange(0, j as int)) is None,
                patterns_view(values@) == with_case(t.subrange(0, j as int)),
            decreases self.value_patterns.len() - j,
        {
            let ghost part = t.subrange(0, j + 1);
            assert(part.drop_last() =~= t.subrange(0, j as int));
            assert(part.last() == self.value_patterns@[j as int]@);
            match regexes::pattern_fault(self.value_patterns[j].as_str(), false) {
                Some(source) => {
                    proof {
                        lemma_first_bad_regex(t, j + 1);
                    }
                    return Err(
                        RedactionConfigError::InvalidValuePattern { pattern: self.value_patterns[j].clone(), source },
                    );
                },
                None => {},
            }
            let ghost before = patterns_view(values@);
            values.push(ValuePattern { pattern: self.value_patterns[j].clone(), ignore_case: false });
            assert(patterns_view(values@) =~= before.push((part.last(), false)));
            assert(patterns_view(values@) =~= with_case(part));
            j = j + 1;
        }
        assert(t.subrange(0, t.len() as int) =~= t);
        let mut cfg = RedactionConfig {
            field_globs: self.field_patterns,
            field_substrings: Vec::new(),
            value_patterns: values,
            replacement: match self.replacement {
                Some(r) => r,
                None => DEFAULT_REPLACEMENT.to_owned(),
            },
        };
        assert(cfg@.substrings =~= Seq::empty());
        cfg.add_sensitive_keys(&self.sensitive_keys);
        Ok(cfg)
    }
}

/// A name is sensitive exactly where a glob fits it, as it is or in lower case, or
/// where its normal form holds one of the listed parts.
pub proof fn what_makes_a_name_sensitive(r: RulesView, name: Seq<char>, i: int)
    ensures
        0 <= i < r.globs.len() && globs::glob_match(r.globs[i], name) == Some(true) ==> name_is_sensitive(r, name),
        0 <= i < r.globs.len() && globs::glob_match(r.globs[i], text::lowercase(name)) == Some(true)
            ==> name_is_sensitive(r, name),
        0 <= i < r.substrings.len() && text::has_infix(normalized_key(name), r.substrings[i]) ==> name_is_sensitive(
            r,
            name,
        ),
        (forall|j: int|
            0 <= j < r.globs.len() ==> globs::glob_match(#[trigger] r.globs[j], name) != Some(true) && globs::glob_match(
                r.globs[j],
                text::lowercase(name),
            ) != Some(true)) && (forall|j: int|
            0 <= j < r.substrings.len() ==> !text::has_infix(normalized_key(name), #[trigger] r.substrings[j]))
            ==> !name_is_sensitive(r, name),
{
}

/// A text is sensitive exactly where one of the patterns is found in it.
pub proof fn what_makes_a_text_sensitive(r: RulesView, value: Seq<char>, i: int)
    ensures
        0 <= i < r.values.len() && regexes::regex_match(r.values[i].0, r.values[i].1, value) == Some(true)
            ==> value_is_sensitive(r, value),
        (forall|j: int|
            0 <= j < r.values.len() ==> regexes::regex_match((#[trigger] r.values[j]).0, r.values[j].1, value) != Some(
                true,
            )) ==> !value_is_sensitive(r, value),
{
}

/// Words of a name are set apart where a capital follows a small letter or a
/// digit, and nowhere else.
pub proof fn words_are_set_apart(a: Seq<char>, b: Seq<char>)
    requires
        a.len() > 0,
        b.len() > 0,
    ensures
        ({
            let small = ('a' <= a.last() && a.last() <= 'z') || ('0' <= a.last() && a.last() <= '9');
            let capital = 'A' <= b[0] && b[0] <= 'Z';
            split_words(a + b) == if small && capital {
                split_words(a) + seq!['_'] + split_words(b)
            } else {
                split_words(a) + split_words(b)
            }
        }),
        b.len() == 1 ==> split_words(b) == b,
    decreases b.len(),
{
    let s = a + b;
    assert(s.last() == b.last());
    if b.len() == 1 {
        assert(s.drop_last() =~= a);
        assert(s[s.len() - 2] == a.last());
        assert(split_words(b.drop_last()) =~= Seq::<char>::empty());
        assert(split_words(b) =~= b);
        assert(split_words(a).push('_').push(b[0]) =~= split_words(a) + seq!['_'] + b);
        assert(split_words(a).push(b[0]) =~= split_words(a) + b);
    } else {
        let c = b.drop_last();
        words_are_set_apart(a, c);
        assert(s.drop_last() =~= a + c);
        assert(s[s.len() - 2] == b[b.len() - 2]);
        assert(split_words(s) =~= split_words(a + c) + split_words(b).skip(split_words(c).len() as int));
        assert(split_words(b) =~= split_words(c) + split_words(b).skip(split_words(c).len() as int));
    }
}

/// Hyphens and white space become underscores, and every other character stays.
pub proof fn separators_become_underscores(s: Seq<char>, i: int)
    requires
        0 <= i < s.len(),
    ensures
        with_underscores(s).len() == s.len(),
        s[i] == '-' || s[i] == ' ' || s[i] == '\t' ==> with_underscores(s)[i] == '_',
        s[i] != '-' && !text::white_space(s[i]) ==> with_underscores(s)[i] == s[i],
{
}

/// In the normal form of a name its words are set apart by underscores and
/// written in lower case.
pub proof fn names_have_a_normal_form(a: Seq<char>, b: Seq<char>)
    requires
        a.len() > 0,
        b.len() > 0,
        'a' <= a.last() <= 'z',
        'A' <= b[0] <= 'Z',
        split_words(a) == a,
        split_words(b) == b,
    ensures
        normalized_key(a + b).len() == text::lowercase(a + seq!['_'] + b).len(),
        forall|i: int|
            0 <= i < normalized_key(a + b).len() ==> #[trigger] normalized_key(a + b)[i] == ({
                let c = text::lowercase(a + seq!['_'] + b)[i];
                if c == '-' || text::white_space(c) {
                    '_'
                } else {
                    c
                }
            }),
{
    words_are_set_apart(a, b);
}

/// The identifiers by which log entries are correlated stay as they are, whatever
/// the rules.
pub proof fn five_names_are_never_redacted(r: RulesView, s: Seq<char>)
    ensures
        cleaned(r, Json::Str(s), Some("trace_id"@)) == Json::Str(s),
        cleaned(r, Json::Str(s), Some("caller_id"@)) == Json::Str(s),
        cleaned(r, Json::Str(s), Some("target_id"@)) == Json::Str(s),
        cleaned(r, Json::Str(s), Some("module_id"@)) == Json::Str(s),
        cleaned(r, Json::Str(s), Some("span_id"@)) == Json::Str(s),
{
}

/// Whether a name is one of those that are never redacted.
pub open spec fn correlates(name: Seq<char>) -> bool {
    seq!["trace_id"@, "caller_id"@, "target_id"@, "module_id"@, "span_id"@].contains(name)
}

proof fn lemma_correlates(name: Seq<char>)
    ensures
        correlates(name) == is_never_redacted(name),
{
    let all = seq!["trace_id"@, "caller_id"@, "target_id"@, "module_id"@, "span_id"@];
    assert(all[0] == "trace_id"@ && all[1] == "caller_id"@ && all[2] == "target_id"@ && all[3] == "module_id"@ && all[4]
        == "span_id"@);
    if correlates(name) {
        let i = choose|i: int| 0 <= i < all.len() && all[i] == name;
        assert(i == 0 || i == 1 || i == 2 || i == 3 || i == 4);
    }
}

/// The name of what steps lead to; none where they lead to an item of an array.
pub open spec fn name_at(field: Option<Seq<char>>, steps: Seq<Step>) -> Option<Seq<char>> {
    if steps.len() == 0 {
        field
    } else {
        match steps.last() {
            Step::Name(k) => Some(k),
            Step::Item(_) => None,
        }
    }
}

/// Whether a name hides its value.
pub open spec fn name_hides(r: RulesView, name: Option<Seq<char>>) -> bool {
    name matches Some(n) && !correlates(n) && name_is_sensitive(r, n)
}

/// A value does not show where its own name is sensitive, at any depth: the
/// replacement stands there, or something around it was replaced.
pub proof fn values_of_sensitive_names_do_not_show(r: RulesView, v: Json, field: Option<Seq<char>>, steps: Seq<Step>)
    requires
        redact::value_at(v, steps) is Some,
        name_hides(r, name_at(field, steps)),
    ensures
        ({
            let shown = redact::value_at(cleaned(r, v, field), steps);
            shown is None || shown == Some(Json::Str(r.replacement))
        }),
    decreases steps.len(),
{
    if field is Some {
        lemma_correlates(field->0);
    }
    if steps.len() > 0 && !name_hides(r, field) {
        let rest = steps.skip(1);
        let next = match steps[0] {
            Step::Name(k) => Some(k),
            Step::Item(_) => None,
        };
        assert(name_at(next, rest) == name_at(field, steps)) by {
            if rest.len() > 0 {
                assert(rest.last() == steps.last());
            }
        }
        match (steps[0], v) {
            (Step::Name(k), Json::Obj(m)) => {
                values_of_sensitive_names_do_not_show(r, m[k], next, rest);
            },
            (Step::Item(i), Json::Arr(a)) => {
                values_of_sensitive_names_do_not_show(r, a[i], next, rest);
            },
            _ => {},
        }
    }
}

/// A sensitive text does not show, at any depth, unless it stands under the name of
/// an identifier by which log entries are correlated.
pub proof fn sensitive_texts_do_not_show(
    r: RulesView,
    v: Json,
    field: Option<Seq<char>>,
    steps: Seq<Step>,
    s: Seq<char>,
)
    requires
        redact::value_at(v, steps) == Some(Json::Str(s)),
        value_is_sensitive(r, s),
        name_at(field, steps) matches Some(n) ==> !correlates(n),
    ensures
        ({
            let shown = redact::value_at(cleaned(r, v, field), steps);
            shown is None || shown == Some(Json::Str(r.replacement))
        }),
    decreases steps.len(),
{
    if field is Some {
        lemma_correlates(field->0);
    }
    if steps.len() > 0 && !name_hides(r, field) {
        let rest = steps.skip(1);
        let next = match steps[0] {
            Step::Name(k) => Some(k),
            Step::Item(_) => None,
        };
        assert(name_at(next, rest) == name_at(field, steps)) by {
            if rest.len() > 0 {
                assert(rest.last() == steps.last());
            }
        }
        match (steps[0], v) {
            (Step::Name(k), Json::Obj(m)) => {
                sensitive_texts_do_not_show(r, m[k], next, rest, s);
            },
            (Step::Item(i), Json::Arr(a)) => {
                sensitive_texts_do_not_show(r, a[i], next, rest, s);
            },
            _ => {},
        }
    }
}

/// What stands under no sensitive name and is no sensitive text is shown as it is,
/// at any depth.
pub proof fn other_values_show(r: RulesView, v: Json, field: Option<Seq<char>>, steps: Seq<Step>, leaf: Json)
    requires
        redact::value_at(v, steps) == Some(leaf),
        redact::is_leaf(leaf),
        !name_hides(r, field),
        forall|i: int|
            0 <= i < steps.len() ==> ((#[trigger] steps[i]) matches Step::Name(k) ==> !name_hides(r, Some(k))),
        leaf matches Json::Str(s) ==> !value_is_sensitive(r, s) || (name_at(field, steps) matches Some(n) && correlates(n)),
    ensures
        redact::value_at(cleaned(r, v, field), steps) == Some(leaf),
    decreases steps.len(),
{
    if field is Some {
        lemma_correlates(field->0);
    }
    if steps.len() > 0 {
        let rest = steps.skip(1);
        let next = match steps[0] {
            Step::Name(k) => Some(k),
            Step::Item(_) => None,
        };
        assert(name_at(next, rest) == name_at(field, steps)) by {
            if rest.len() > 0 {
                assert(rest.last() == steps.last());
            }
        }
        assert forall|i: int| 0 <= i < rest.len() implies ((#[trigger] rest[i]) matches Step::Name(k) ==> !name_hides(
            r,
            Some(k),
        )) by {
            assert(rest[i] == steps[i + 1]);
        }
        match (steps[0], v) {
            (Step::Name(k), Json::Obj(m)) => {
                other_values_show(r, m[k], next, rest, leaf);
            },
            (Step::Item(i), Json::Arr(a)) => {
                other_values_show(r, a[i], next, rest, leaf);
            },
            _ => {},
        }
    }
}

/// Redacting an object keeps its names, and redacting an array keeps its length.
pub proof fn redacting_keeps_the_shape(r: RulesView, m: Map<Seq<char>, Json>, a: Seq<Json>)
    ensures
        cleaned(r, Json::Obj(m), None) matches Json::Obj(o) && o.dom() == m.dom(),
        cleaned(r, Json::Arr(a), None) matches Json::Arr(b) && b.len() == a.len(),
{
    assert(cleaned(r, Json::Obj(m), None)->Obj_0.dom() =~= m.dom());
}

/// Listed names with a wildcard become globs, if they are valid, and the other
/// names become parts to be found, in the order of the list; an empty name is
/// passed over, and nothing else changes.
pub proof fn listed_names_become_rules(r: RulesView, keys: Seq<Seq<char>>)
    ensures
        with_keys(r, keys).globs == r.globs + keys.filter(
            |k: Seq<char>| (k.contains('*') || k.contains('?') || k.contains('[')) && globs::glob_error(k) is None,
        ),
        with_keys(r, keys).substrings == r.substrings + keys.filter(
            |k: Seq<char>| k.len() > 0 && !k.contains('*') && !k.contains('?') && !k.contains('['),
        ).map_values(|k: Seq<char>| normalized_key(k)),
        with_keys(r, keys).values == r.values,
        with_keys(r, keys).replacement == r.replacement,
    decreases keys.len(),
{
    reveal(Seq::filter);
    let globbed = |k: Seq<char>| (k.contains('*') || k.contains('?') || k.contains('[')) && globs::glob_error(k) is None;
    let plain = |k: Seq<char>| k.len() > 0 && !k.contains('*') && !k.contains('?') && !k.contains('[');
    let normal = |k: Seq<char>| normalized_key(k);
    if keys.len() == 0 {
        assert(with_keys(r, keys).globs =~= r.globs + keys.filter(globbed));
        assert(with_keys(r, keys).substrings =~= r.substrings + keys.filter(plain).map_values(normal));
    } else {
        let p = keys.drop_last();
        let k = keys.last();
        listed_names_become_rules(r, p);
        assert(keys.filter(globbed) =~= if globbed(k) {
            p.filter(globbed).push(k)
        } else {
            p.filter(globbed)
        });
        assert(keys.filter(plain).map_values(normal) =~= if plain(k) {
            p.filter(plain).map_values(normal).push(normalized_key(k))
        } else {
            p.filter(plain).map_values(normal)
        });
        assert(with_keys(r, keys).globs =~= r.globs + keys.filter(globbed));
        assert(with_keys(r, keys).substrings =~= r.substrings + keys.filter(plain).map_values(normal));
    }
}

/// Of listed patterns those that can be compiled are kept, in order, whatever the
/// case of the letters.
pub proof fn patterns_that_compile_are_kept(s: Seq<Seq<char>>)
    ensures
        valid_patterns(s) == s.filter(|p: Seq<char>| regexes::regex_error(p, true) is None).map_values(
            |p: Seq<char>| (p, true),
        ),
    decreases s.len(),
{
    reveal(Seq::filter);
    let good = |p: Seq<char>| regexes::regex_error(p, true) is None;
    let kept = |p: Seq<char>| (p, true);
    if s.len() == 0 {
        assert(valid_patterns(s) =~= s.filter(good).map_values(kept));
    } else {
        let p = s.drop_last();
        patterns_that_compile_are_kept(p);
        assert(s.filter(good).map_values(kept) =~= if good(s.last()) {
            p.filter(good).map_values(kept).push((s.last(), true))
        } else {
            p.filter(good).map_values(kept)
        });
    }
}

/// A setting is read under its current name, and under its deprecated name where
/// the current one holds nothing; null is nothing.
pub proof fn the_current_name_comes_first(s: Setting)
    ensures
        s.canonical matches Some(v) && !(v@ is Null) ==> setting_value(s) == Some(s.canonical->0@) && !uses_legacy(s),
        (s.canonical matches Some(v) ==> v@ is Null) && (s.legacy matches Some(w) && !(w@ is Null)) ==> setting_value(s)
            == Some(s.legacy->0@) && uses_legacy(s),
        (s.canonical matches Some(v) ==> v@ is Null) && (s.legacy matches Some(w) ==> w@ is Null) ==> setting_value(s)
            is None && !uses_legacy(s),
{
}

/// The names that are sensitive where no list is configured.
pub open spec fn sensitive_by_default() -> Seq<Seq<char>> {
    seq![
        "password"@,
        "passwd"@,
        "secret"@,
        "token"@,
        "api_key"@,
        "apikey"@,
        "apiKey"@,
        "access_key"@,
        "private_key"@,
        "authorization"@,
        "auth"@,
        "credential"@,
        "cookie"@,
        "session"@,
        "bearer"@,
    ]
}

/// The rules follow the settings: the replacement is the configured text or
/// `***REDACTED***`, the patterns are those of the configured list, and the names
/// those of the configured list, or the names of secrets where none is configured.
pub proof fn rules_follow_the_settings(keys: Setting, patterns: Setting, replacement: Setting)
    ensures
        ({
            let r = rules_of(keys, patterns, replacement);
            &&& setting_value(replacement) matches Some(Json::Str(t)) ==> r.replacement == t
            &&& setting_value(replacement) is None ==> r.replacement == "***REDACTED***"@
            &&& setting_value(patterns) matches Some(Json::Arr(a)) ==> r.values == subscribers::string_items(a).filter(
                |p: Seq<char>| regexes::regex_error(p, true) is None,
            ).map_values(|p: Seq<char>| (p, true))
            &&& setting_value(patterns) is None ==> r.values.len() == 0
            &&& setting_value(keys) matches Some(Json::Arr(a)) ==> {
                &&& r.globs == subscribers::string_items(a).filter(
                    |k: Seq<char>| (k.contains('*') || k.contains('?') || k.contains('[')) && globs::glob_error(k) is None,
                )
                &&& r.substrings == subscribers::string_items(a).filter(
                    |k: Seq<char>| k.len() > 0 && !k.contains('*') && !k.contains('?') && !k.contains('['),
                ).map_values(|k: Seq<char>| normalized_key(k))
            }
            &&& setting_value(keys) is None ==> {
                &&& globs::glob_error("_secret_*"@) is None ==> r.globs == seq!["_secret_*"@]
                &&& r.substrings == sensitive_by_default().map_values(|k: Seq<char>| normalized_key(k))
            }
        }),
{
    let r = rules_of(keys, patterns, replacement);
    let base = RulesView {
        globs: Seq::empty(),
        substrings: Seq::empty(),
        values: r.values,
        replacement: r.replacement,
    };
    if let Some(Json::Arr(a)) = setting_value(patterns) {
        patterns_that_compile_are_kept(subscribers::string_items(a));
    }
    let v0 = match setting_value(patterns) {
        Some(Json::Arr(a)) => valid_patterns(subscribers::string_items(a)),
        _ => Seq::empty(),
    };
    let t0 = match setting_value(replacement) {
        Some(Json::Str(s)) => s,
        _ => DEFAULT_REPLACEMENT@,
    };
    let start = RulesView { globs: Seq::empty(), substrings: Seq::empty(), values: v0, replacement: t0 };
    let names = match setting_value(keys) {
        Some(Json::Arr(a)) => subscribers::string_items(a),
        _ => default_keys(),
    };
    listed_names_become_rules(start, names);
    let globbed = |k: Seq<char>| (k.contains('*') || k.contains('?') || k.contains('[')) && globs::glob_error(k) is None;
    let plain = |k: Seq<char>| k.len() > 0 && !k.contains('*') && !k.contains('?') && !k.contains('[');
    let normal = |k: Seq<char>| normalized_key(k);
    assert(r.globs =~= names.filter(globbed));
    assert(r.substrings =~= names.filter(plain).map_values(normal));
    if setting_value(keys) is None {
        lemma_default_names();
        let rest = sensitive_by_default();
        assert(default_keys() =~= seq!["_secret_*"@] + rest);
        lemma_filter_split(seq!["_secret_*"@], rest, globbed);
        lemma_filter_split(seq!["_secret_*"@], rest, plain);
        lemma_filter_none(rest, globbed);
        lemma_filter_all(rest, plain);
        lemma_filter_none(seq!["_secret_*"@], plain);
        if globs::glob_error("_secret_*"@) is None {
            lemma_filter_all(seq!["_secret_*"@], globbed);
            assert(seq!["_secret_*"@] + Seq::<Seq<char>>::empty() =~= seq!["_secret_*"@]);
        }
        assert(Seq::<Seq<char>>::empty() + rest =~= rest);
    }
}

proof fn lemma_filter_split(a: Seq<Seq<char>>, b: Seq<Seq<char>>, f: spec_fn(Seq<char>) -> bool)
    ensures
        (a + b).filter(f) == a.filter(f) + b.filter(f),
    decreases b.len(),
{
    reveal(Seq::filter);
    if b.len() == 0 {
        assert(a + b =~= a);
        assert(a.filter(f) + b.filter(f) =~= a.filter(f));
    } else {
        lemma_filter_split(a, b.drop_last(), f);
        assert((a + b).drop_last() =~= a + b.drop_last());
        assert((a + b).last() == b.last());
        assert((a + b).filter(f) =~= a.filter(f) + b.filter(f));
    }
}

proof fn lemma_filter_all(s: Seq<Seq<char>>, f: spec_fn(Seq<char>) -> bool)
    requires
        forall|i: int| 0 <= i < s.len() ==> f(#[trigger] s[i]),
    ensures
        s.filter(f) == s,
    decreases s.len(),
{
    reveal(Seq::filter);
    if s.len() > 0 {
        lemma_filter_all(s.drop_last(), f);
        assert(f(s[s.len() - 1]));
        assert(s.drop_last().push(s.last()) =~= s);
    } else {
        assert(s.filter(f) =~= s);
    }
}

proof fn lemma_filter_none(s: Seq<Seq<char>>, f: spec_fn(Seq<char>) -> bool)
    requires
        forall|i: int| 0 <= i < s.len() ==> !f(#[trigger] s[i]),
    ensures
        s.filter(f) == Seq::<Seq<char>>::empty(),
    decreases s.len(),
{
    reveal(Seq::filter);
    if s.len() > 0 {
        lemma_filter_none(s.drop_last(), f);
        assert(!f(s[s.len() - 1]));
    } else {
        assert(s.filter(f) =~= Seq::<Seq<char>>::empty());
    }
}

proof fn lemma_default_names()
    ensures
        forall|i: int| #![trigger sensitive_by_default()[i]]
            0 <= i < sensitive_by_default().len() ==> sensitive_by_default()[i].len() > 0 && !sensitive_by_default()[i].contains(
                '*',
            ) && !sensitive_by_default()[i].contains('?') && !sensitive_by_default()[i].contains('['),
        "_secret_*"@.contains('*'),
{
    reveal_strlit("_secret_*");
    assert("_secret_*"@[8] == '*');
    reveal_strlit("password");
    reveal_strlit("passwd");
    reveal_strlit("secret");
    reveal_strlit("token");
    reveal_strlit("api_key");
    reveal_strlit("apikey");
    reveal_strlit("apiKey");
    reveal_strlit("access_key");
    reveal_strlit("private_key");
    reveal_strlit("authorization");
    reveal_strlit("auth");
    reveal_strlit("credential");
    reveal_strlit("cookie");
    reveal_strlit("session");
    reveal_strlit("bearer");
}

/// Names in a row are joined by commas.
pub proof fn names_are_joined_by_commas(a: Seq<Seq<char>>, b: Seq<Seq<char>>)
    requires
        a.len() > 0,
        b.len() > 0,
    ensures
        comma_joined(a + b) == comma_joined(a) + ", "@ + comma_joined(b),
        a.len() == 1 ==> comma_joined(a) == a[0],
    decreases b.len(),
{
    let s = a + b;
    assert(s.last() == b.last());
    if b.len() == 1 {
        assert(s.drop_last() =~= a);
    } else {
        names_are_joined_by_commas(a, b.drop_last());
        assert(s.drop_last() =~= a + b.drop_last());
        assert(comma_joined(s) =~= comma_joined(a) + ", "@ + comma_joined(b));
    }
}

/// The first deprecated names in use are told of, all of them, and what was told
/// is remembered.
pub proof fn deprecated_names_are_told(names: Seq<Seq<char>>)
    requires
        names.len() > 0,
    ensures
        notice_of(false, names).1,
        notice_of(false, names).0 matches Some(t) && text::has_infix(t, comma_joined(names)),
        notice_of(true, names) == (None::<Seq<char>>, true),
{
    let before = "[apcore] Config keys "@;
    let t = deprecation_text(names);
    let after =
        " are deprecated; use obs.redaction.sensitive_keys / obs.redaction.regex_patterns / obs.redaction.replacement instead. Legacy keys will be removed in a future release."@;
    text::a_part_stands_between(t, comma_joined(names), before, after);
}

/// Every setting that is read under its deprecated name is named, and no other.
pub proof fn the_deprecated_names_in_use(keys: Setting, patterns: Setting, replacement: Setting)
    ensures
        ({
            let names = legacy_names(keys, patterns, replacement);
            &&& uses_legacy(keys) ==> names.contains("observability.redaction.sensitive_keys"@)
            &&& uses_legacy(patterns) ==> names.contains("observability.redaction.regex_patterns"@)
            &&& uses_legacy(replacement) ==> names.contains("observability.redaction.replacement"@)
            &&& names.len() == (if uses_legacy(keys) {
                1int
            } else {
                0int
            }) + (if uses_legacy(patterns) {
                1int
            } else {
                0int
            }) + (if uses_legacy(replacement) {
                1int
            } else {
                0int
            })
        }),
{
    let names = legacy_names(keys, patterns, replacement);
    if uses_legacy(keys) {
        assert(names[0] == LEGACY_SENSITIVE_KEYS@);
    }
    if uses_legacy(patterns) {
        assert(names[if uses_legacy(keys) {
            1int
        } else {
            0int
        }] == LEGACY_REGEX_PATTERNS@);
    }
    if uses_legacy(replacement) {
        assert(names[names.len() - 1] == LEGACY_REPLACEMENT@);
    }
}

/// Where a glob cannot be read, the first such glob is told of.
pub proof fn the_first_bad_glob_is_told(s: Seq<Seq<char>>)
    ensures
        first_bad_glob(s) is None <==> forall|i: int| 0 <= i < s.len() ==> globs::glob_error(#[trigger] s[i]) is None,
        first_bad_glob(s) matches Some(p) ==> exists|i: int|
            0 <= i < s.len() && #[trigger] s[i] == p && globs::glob_error(p) is Some && forall|j: int|
                0 <= j < i ==> globs::glob_error(#[trigger] s[j]) is None,
    decreases s.len(),
{
    if s.len() > 0 {
        let d = s.drop_last();
        the_first_bad_glob_is_told(d);
        assert(forall|i: int| 0 <= i < d.len() ==> d[i] == #[trigger] s[i]);
        assert(forall|i: int| 0 <= i < d.len() ==> s[i] == #[trigger] d[i]);
        if first_bad_glob(d) is None {
            assert(s[s.len() - 1] == s.last());
        } else {
            let p = first_bad_glob(d)->0;
            let i = choose|i: int|
                0 <= i < d.len() && #[trigger] d[i] == p && globs::glob_error(p) is Some && forall|j: int|
                    0 <= j < i ==> globs::glob_error(#[trigger] d[j]) is None;
            assert(s[i] == p);
        }
    }
}

/// Where a pattern cannot be compiled, the first such pattern is told of.
pub proof fn the_first_bad_pattern_is_told(s: Seq<Seq<char>>)
    ensures
        first_bad_regex(s) is None <==> forall|i: int|
            0 <= i < s.len() ==> regexes::regex_error(#[trigger] s[i], false) is None,
        first_bad_regex(s) matches Some(p) ==> exists|i: int|
            0 <= i < s.len() && #[trigger] s[i] == p && regexes::regex_error(p, false) is Some && forall|j: int|
                0 <= j < i ==> regexes::regex_error(#[trigger] s[j], false) is None,
    decreases s.len(),
{
    if s.len() > 0 {
        let d = s.drop_last();
        the_first_bad_pattern_is_told(d);
        assert(forall|i: int| 0 <= i < d.len() ==> d[i] == #[trigger] s[i]);
        assert(forall|i: int| 0 <= i < d.len() ==> s[i] == #[trigger] d[i]);
        if first_bad_regex(d) is None {
            assert(s[s.len() - 1] == s.last());
        } else {
            let p = first_bad_regex(d)->0;
            let i = choose|i: int|
                0 <= i < d.len() && #[trigger] d[i] == p && regexes::regex_error(p, false) is Some && forall|j: int|
                    0 <= j < i ==> regexes::regex_error(#[trigger] d[j], false) is None;
            assert(s[i] == p);
        }
    }
}

} // verus!
