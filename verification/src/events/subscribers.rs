//! Subscribers and their configuration.
use vstd::prelude::*;
use vstd::string::*;
use crate::clock::Timestamp;
use crate::error_code::ErrorCode;
use crate::errors::{clone_object, ErrorView, ModuleError};
use crate::events::event::{ApCoreEvent, EventView, render_event_json, render_event_text};
use crate::ids::random_id;
use crate::json::{empty_object, Json, JsonValue, put};
use crate::strmap::StrMap;
use crate::text::{cat2, cat3, str_eq};
use crate::wildcard::matches_wildcard;
use crate::errors;
use crate::events::event;
use crate::ids;
use crate::json;
use crate::module;
use crate::strmap;
use crate::text;
use crate::wildcard;

verus! {

/// The rank of a severity; what is not known ranks with `info`.
pub open spec fn rank_of(level: Seq<char>) -> int {
    if level == "warn"@ {
        1
    } else if level == "error"@ {
        2
    } else if level == "fatal"@ {
        3
    } else {
        0
    }
}

fn severity_rank(level: &str) -> (r: u8)
    ensures
        r == rank_of(level@),
{
    if str_eq(level, "warn") {
        1
    } else if str_eq(level, "error") {
        2
    } else if str_eq(level, "fatal") {
        3
    } else {
        0
    }
}

/// The texts of a map.
pub open spec fn text_map(m: Map<Seq<char>, String>) -> Map<Seq<char>, Seq<char>> {
    Map::new(|k: Seq<char>| m.contains_key(k), |k: Seq<char>| m[k]@)
}

/// The entries of an object that are strings.
pub open spec fn string_entries(m: Map<Seq<char>, Json>) -> Map<Seq<char>, Seq<char>> {
    Map::new(|k: Seq<char>| m.contains_key(k) && m[k] is Str, |k: Seq<char>| m[k]->Str_0)
}

/// The elements of a list that are strings.
pub open spec fn string_items(s: Seq<Json>) -> Seq<Seq<char>>
    decreases s.len(),
{
    if s.len() == 0 {
        Seq::empty()
    } else {
        match s.last() {
            Json::Str(t) => string_items(s.drop_last()).push(t),
            _ => string_items(s.drop_last()),
        }
    }
}

fn read_headers(m: &StrMap<JsonValue>) -> (r: StrMap<String>)
    ensures
        text_map(r@) == string_entries(json::object_view(*m)),
{
    let n: usize = m.len();
    proof {
        json::lemma_object_view(*m);
    }
    let mut out: StrMap<String> = StrMap::new();
    let mut i: usize = 0;
    while i < n
        invariant
            i <= n,
            n == m.pairs().len(),
            strmap::unique_keys(m.pairs()),
            forall|j: int| 0 <= j < m.pairs().len() ==> json::object_view(*m).contains_key((#[trigger] m.pairs()[j]).0)
                && json::object_view(*m)[m.pairs()[j].0] == m.pairs()[j].1@,
            forall|j: int| 0 <= j < i && (#[trigger] m.pairs()[j]).1@ is Str ==> out@.contains_key(m.pairs()[j].0),
            forall|k: Seq<char>| #[trigger] out@.contains_key(k) ==> json::object_view(*m).contains_key(k)
                && json::object_view(*m)[k] == Json::Str(out@[k]@),
        decreases n - i,
    {
        let ghost pair = m.pairs()[i as int];
        match m.value_at(i).as_str() {
            Some(s) => {
                let key = m.key_at(i).clone();
                out.insert(key, s.to_owned());
            },
            None => {},
        }
        i = i + 1;
    }
    proof {
        let want = string_entries(json::object_view(*m));
        assert forall|k: Seq<char>| want.contains_key(k) implies out@.contains_key(k) by {
            assert(strmap::has_key(json::pairs_view(m.pairs()), k));
            let j = strmap::key_index(json::pairs_view(m.pairs()), k);
            assert(m.pairs()[j].0 == k);
        }
        assert(text_map(out@) =~= want);
    }
    out
}

pub(crate) fn read_patterns(a: &Vec<JsonValue>) -> (r: Vec<String>)
    ensures
        text::texts(r@) == string_items(json::values_view(a@)),
{
    let mut out: Vec<String> = Vec::new();
    let mut i: usize = 0;
    let ghost s = json::values_view(a@);
    assert(s.subrange(0, 0) =~= Seq::empty());
    assert(text::texts(out@) =~= Seq::empty());
    while i < a.len()
        invariant
            i <= a.len(),
            s == json::values_view(a@),
            text::texts(out@) == string_items(s.subrange(0, i as int)),
        decreases a.len() - i,
    {
        let ghost part = s.subrange(0, i + 1);
        assert(part.drop_last() =~= s.subrange(0, i as int));
        assert(part.last() == a@[i as int]@);
        match a[i].as_str() {
            Some(t) => {
                let ghost before = text::texts(out@);
                out.push(t.to_owned());
                assert(text::texts(out@) =~= before.push(t@));
            },
            None => {},
        }
        i = i + 1;
    }
    assert(s.subrange(0, s.len() as int) =~= s);
    out
}

/// Name of the header that tells the type of the body.
pub const CONTENT_TYPE: &'static str = "Content-Type";

/// Type of a JSON body.
pub const JSON_CONTENT: &'static str = "application/json";

/// The texts of a list of headers.
pub open spec fn headers_view(s: Seq<(String, String)>) -> Seq<(Seq<char>, Seq<char>)> {
    Seq::new(s.len(), |i: int| (s[i].0@, s[i].1@))
}

/// The texts of the pairs of a map of texts.
pub open spec fn text_pairs(p: Seq<(Seq<char>, String)>) -> Seq<(Seq<char>, Seq<char>)> {
    Seq::new(p.len(), |i: int| (p[i].0, p[i].1@))
}

/// A JSON body's header followed by these.
fn json_headers(m: &StrMap<String>) -> (r: Vec<(String, String)>)
    ensures
        headers_view(r@) == seq![(CONTENT_TYPE@, JSON_CONTENT@)] + text_pairs(m.pairs()),
{
    let mut out: Vec<(String, String)> = Vec::new();
    out.push((CONTENT_TYPE.to_owned(), JSON_CONTENT.to_owned()));
    let n: usize = m.len();
    let mut i: usize = 0;
    while i < n
        invariant
            i <= n,
            n == m.pairs().len(),
            out@.len() == i + 1,
            out@[0].0@ == CONTENT_TYPE@,
            out@[0].1@ == JSON_CONTENT@,
            forall|j: int| 0 <= j < i ==> (#[trigger] m.pairs()[j]).0 == out@[j + 1].0@ && m.pairs()[j].1@ == out@[j + 1].1@,
        decreases n - i,
    {
        let key = m.key_at(i).clone();
        let value = m.value_at(i).clone();
        out.push((key, value));
        i = i + 1;
    }
    assert(headers_view(out@) =~= seq![(CONTENT_TYPE@, JSON_CONTENT@)] + text_pairs(m.pairs()));
    out
}

// ---------------------------------------------------------------------------
// Webhook
// ---------------------------------------------------------------------------

/// Delivers events by HTTP POST.
#[derive(Debug)]
pub struct WebhookSubscriber {
    pub id: String,
    pub url: String,
    pub event_pattern: String,
    pub headers: StrMap<String>,
    pub retry_count: u32,
    pub timeout_ms: u64,
}

/// What follows a request to a webhook.
#[derive(Debug, Clone, Copy, PartialEq, Eq, Structural)]
pub enum WebhookStep {
    /// The event is delivered.
    Delivered,
    /// The receiver refused the event; it is not sent again.
    Refused,
    /// Send it again.
    Again,
    /// It failed too often.
    GaveUp,
}

impl WebhookSubscriber {
    /// A webhook with three repetitions and five seconds for each request.
    pub fn new(id: &str, url: &str, event_pattern: &str) -> (r: Self)
        ensures
            r.id@ == id@,
            r.url@ == url@,
            r.event_pattern@ == event_pattern@,
            r.headers@ == Map::<Seq<char>, String>::empty(),
            r.retry_count == 3,
            r.timeout_ms == 5000,
    {
        WebhookSubscriber {
            id: id.to_owned(),
            url: url.to_owned(),
            event_pattern: event_pattern.to_owned(),
            headers: StrMap::new(),
            retry_count: 3,
            timeout_ms: 5000,
        }
    }

    /// The identifier of the subscriber.
    pub fn subscriber_id(&self) -> (r: &str)
        ensures
            r@ == self.id@,
    {
        self.id.as_str()
    }

    /// The pattern of the event types that the subscriber wants.
    pub fn event_pattern(&self) -> (r: &str)
        ensures
            r@ == self.event_pattern@,
    {
        self.event_pattern.as_str()
    }

    /// The headers of a request.
    pub fn request_headers(&self) -> (r: Vec<(String, String)>)
        ensures
            headers_view(r@) == seq![(CONTENT_TYPE@, JSON_CONTENT@)] + text_pairs(self.headers.pairs()),
    {
        json_headers(&self.headers)
    }

    /// What follows the request with this index: a status below 500 ends the
    /// delivery; a higher one, or no answer, leads to another request as long as
    /// repetitions are left.
    pub fn after_request(&self, attempt: u32, status: Option<u16>) -> (r: WebhookStep)
        ensures
            r == (match status {
                Some(s) if 200 <= s < 300 => WebhookStep::Delivered,
                Some(s) if s < 500 => WebhookStep::Refused,
                _ => if attempt < self.retry_count {
                    WebhookStep::Again
                } else {
                    WebhookStep::GaveUp
                },
            }),
    {
        match status {
            Some(s) => {
                if 200 <= s && s < 300 {
                    return WebhookStep::Delivered;
                }
                if s < 500 {
                    return WebhookStep::Refused;
                }
            },
            None => {},
        }
        if attempt < self.retry_count {
            WebhookStep::Again
        } else {
            WebhookStep::GaveUp
        }
    }
}

// ---------------------------------------------------------------------------
// A2A
// ---------------------------------------------------------------------------

/// How a request to the platform is authorised.
#[derive(Debug)]
pub enum A2AAuth {
    /// A bearer token.
    Bearer(String),
    /// Headers of the request.
    Headers(StrMap<String>),
}

/// The mathematical contents of an authorisation.
#[verifier::ext_equal]
pub enum AuthView {
    Bearer(Seq<char>),
    Headers(Map<Seq<char>, Seq<char>>),
}

impl View for A2AAuth {
    type V = AuthView;

    open spec fn view(&self) -> AuthView {
        match self {
            A2AAuth::Bearer(t) => AuthView::Bearer(t@),
            A2AAuth::Headers(m) => AuthView::Headers(text_map(m@)),
        }
    }
}

/// The contents of an optional authorisation.
pub open spec fn opt_auth(o: Option<A2AAuth>) -> Option<AuthView> {
    match o {
        Some(a) => Some(a@),
        None => None,
    }
}

/// Delivers events to the platform, once each.
#[derive(Debug)]
pub struct A2ASubscriber {
    pub id: String,
    pub platform_url: String,
    pub auth: Option<A2AAuth>,
    pub event_pattern: String,
    pub timeout_ms: u64,
}

/// What the platform is sent.
pub open spec fn a2a_message(e: EventView) -> Json {
    Json::Obj(
        map![
            "skillId"@ => Json::Str("apevo.event_receiver"@),
            "event"@ => Json::Obj(
                map![
                    "event_type"@ => Json::Str(e.event_type),
                    "module_id"@ => (match e.module_id {
                        Some(m) => Json::Str(m),
                        None => Json::Null,
                    }),
                    "timestamp"@ => Json::Str(e.timestamp),
                    "severity"@ => Json::Str(e.severity),
                    "data"@ => e.data
                ],
            )
        ],
    )
}

impl A2ASubscriber {
    /// A subscriber without authorisation and with five seconds for each
    /// request.
    pub fn new(id: &str, platform_url: &str, event_pattern: &str) -> (r: Self)
        ensures
            r.id@ == id@,
            r.platform_url@ == platform_url@,
            r.auth is None,
            r.event_pattern@ == event_pattern@,
            r.timeout_ms == 5000,
    {
        A2ASubscriber {
            id: id.to_owned(),
            platform_url: platform_url.to_owned(),
            auth: None,
            event_pattern: event_pattern.to_owned(),
            timeout_ms: 5000,
        }
    }

    /// The identifier of the subscriber.
    pub fn subscriber_id(&self) -> (r: &str)
        ensures
            r@ == self.id@,
    {
        self.id.as_str()
    }

    /// The pattern of the event types that the subscriber wants.
    pub fn event_pattern(&self) -> (r: &str)
        ensures
            r@ == self.event_pattern@,
    {
        self.event_pattern.as_str()
    }

    /// What the platform is sent.
    pub fn payload(event: &ApCoreEvent) -> (r: JsonValue)
        ensures
            r@ == a2a_message(event@),
    {
        broadcast use crate::json::lemma_value_view;
        let mut e = empty_object();
        put(&mut e, "event_type", JsonValue::str(event.event_type.as_str()));
        let module = match &event.module_id {
            Some(m) => JsonValue::str(m.as_str()),
            None => JsonValue::Null,
        };
        put(&mut e, "module_id", module);
        put(&mut e, "timestamp", JsonValue::str(event.timestamp.as_str()));
        put(&mut e, "severity", JsonValue::str(event.severity.as_str()));
        put(&mut e, "data", event.data.clone());
        let mut m = empty_object();
        put(&mut m, "skillId", JsonValue::str("apevo.event_receiver"));
        put(&mut m, "event", JsonValue::Object(e));
        JsonValue::Object(m)
    }

    /// The headers of a request.
    pub fn request_headers(&self) -> (r: Vec<(String, String)>)
        ensures
            headers_view(r@) == seq![(CONTENT_TYPE@, JSON_CONTENT@)] + (match self.auth {
                Some(A2AAuth::Bearer(token)) => seq![("Authorization"@, "Bearer "@ + token@)],
                Some(A2AAuth::Headers(m)) => text_pairs(m.pairs()),
                None => Seq::empty(),
            }),
    {
        match &self.auth {
            Some(A2AAuth::Headers(m)) => json_headers(m),
            Some(A2AAuth::Bearer(token)) => {
                let empty: StrMap<String> = StrMap::new();
                let mut out = json_headers(&empty);
                let ghost before = headers_view(out@);
                let value = cat2("Bearer ", token.as_str());
                out.push(("Authorization".to_owned(), value));
                assert(headers_view(out@) =~= before.push(("Authorization"@, "Bearer "@ + token@)));
                assert(text_pairs(empty.pairs()) =~= Seq::empty());
                assert(headers_view(out@) =~= seq![(CONTENT_TYPE@, JSON_CONTENT@)] + seq![
                    ("Authorization"@, "Bearer "@ + token@),
                ]);
                out
            },
            None => {
                let empty: StrMap<String> = StrMap::new();
                let out = json_headers(&empty);
                assert(text_pairs(empty.pairs()) =~= Seq::empty());
                out
            },
        }
    }
}

// ---------------------------------------------------------------------------
// File
// ---------------------------------------------------------------------------

/// How events are written.
#[derive(Debug, Clone, Copy, PartialEq, Eq, Structural)]
pub enum OutputFormat {
    Json,
    Text,
}

/// The format that a configuration asks for: `json`, or else text.
pub open spec fn format_of(s: Option<Seq<char>>) -> OutputFormat {
    if s == Some("json"@) {
        OutputFormat::Json
    } else {
        OutputFormat::Text
    }
}

impl OutputFormat {
    /// The format that a configuration asks for.
    pub fn from_config_str(s: Option<&str>) -> (r: Self)
        ensures
            r == format_of(text::opt_str(s)),
    {
        match s {
            Some(t) => if str_eq(t, "json") {
                OutputFormat::Json
            } else {
                OutputFormat::Text
            },
            None => OutputFormat::Text,
        }
    }

    /// An event as a line in this format.
    pub fn render(&self, event: &ApCoreEvent) -> (r: String)
        ensures
            r@ == rendered(*self, event@),
    {
        match self {
            OutputFormat::Json => render_event_json(event),
            OutputFormat::Text => render_event_text(event),
        }
    }
}

/// An event as a line in a format.
pub open spec fn rendered(format: OutputFormat, e: EventView) -> Seq<char> {
    match format {
        OutputFormat::Json => event::event_line(e),
        OutputFormat::Text => event::event_text(e),
    }
}

/// Writes events to a file.
#[derive(Debug)]
pub struct FileSubscriber {
    pub id: String,
    pub path: String,
    pub append: bool,
    pub format: OutputFormat,
    /// Size from which the file is put aside before it is written to.
    pub rotate_bytes: Option<u64>,
}

impl FileSubscriber {
    /// A subscriber with a new identifier that appends JSON and never rotates.
    pub fn new(path: &str) -> (r: Self)
        ensures
            ids::is_random_id(r.id@, "file-"@),
            r.path@ == path@,
            r.append,
            r.format == OutputFormat::Json,
            r.rotate_bytes is None,
    {
        FileSubscriber {
            id: random_id("file-"),
            path: path.to_owned(),
            append: true,
            format: OutputFormat::Json,
            rotate_bytes: None,
        }
    }

    /// Set the identifier.
    pub fn with_id(self, id: &str) -> (r: Self)
        ensures
            r.id@ == id@,
            r == (FileSubscriber { id: r.id, ..self }),
    {
        FileSubscriber { id: id.to_owned(), ..self }
    }

    /// Set the format.
    pub fn with_format(self, format: OutputFormat) -> (r: Self)
        ensures
            r == (FileSubscriber { format, ..self }),
    {
        FileSubscriber { format, ..self }
    }

    /// Set whether lines are appended or replace the file.
    pub fn with_append(self, append: bool) -> (r: Self)
        ensures
            r == (FileSubscriber { append, ..self }),
    {
        FileSubscriber { append, ..self }
    }

    /// Set the size from which the file is put aside.
    pub fn with_rotate_bytes(self, rotate_bytes: Option<u64>) -> (r: Self)
        ensures
            r == (FileSubscriber { rotate_bytes, ..self }),
    {
        FileSubscriber { rotate_bytes, ..self }
    }

    /// The identifier of the subscriber.
    pub fn subscriber_id(&self) -> (r: &str)
        ensures
            r@ == self.id@,
    {
        self.id.as_str()
    }

    /// The pattern of the event types that the subscriber wants: all.
    pub fn event_pattern(&self) -> (r: &'static str)
        ensures
            r@ == "*"@,
    {
        "*"
    }

    /// Whether a file of this size, if there is one, is put aside before the
    /// next line.
    pub fn rotates(&self, size: Option<u64>) -> (r: bool)
        ensures
            r == (match (self.rotate_bytes, size) {
                (Some(limit), Some(n)) => n >= limit,
                _ => false,
            }),
    {
        match (self.rotate_bytes, size) {
            (Some(limit), Some(n)) => n >= limit,
            _ => false,
        }
    }

    /// The name under which a file is put aside.
    pub fn rotated_name(name: &str) -> (r: String)
        ensures
            r@ == name@ + ".1"@,
    {
        cat2(name, ".1")
    }

    /// What is written for an event.
    pub fn line(&self, event: &ApCoreEvent) -> (r: String)
        ensures
            r@ == rendered(self.format, event@).push('\n'),
    {
        let mut s = self.format.render(event);
        s.push('\n');
        s
    }
}

// ---------------------------------------------------------------------------
// Standard output
// ---------------------------------------------------------------------------

/// Writes events to the standard output.
#[derive(Debug)]
pub struct StdoutSubscriber {
    pub id: String,
    pub format: OutputFormat,
    /// Least severity that is written.
    pub level_filter: Option<String>,
}

impl Default for StdoutSubscriber {
    fn default() -> (r: Self)
        ensures
            ids::is_random_id(r.id@, "stdout-"@),
            r.format == OutputFormat::Text,
            r.level_filter is None,
    {
        StdoutSubscriber::new()
    }
}

impl StdoutSubscriber {
    /// A subscriber with a new identifier that writes every event as text.
    pub fn new() -> (r: Self)
        ensures
            ids::is_random_id(r.id@, "stdout-"@),
            r.format == OutputFormat::Text,
            r.level_filter is None,
    {
        StdoutSubscriber { id: random_id("stdout-"), format: OutputFormat::Text, level_filter: None }
    }

    /// Set the identifier.
    pub fn with_id(self, id: &str) -> (r: Self)
        ensures
            r.id@ == id@,
            r == (StdoutSubscriber { id: r.id, ..self }),
    {
        StdoutSubscriber { id: id.to_owned(), ..self }
    }

    /// Set the format.
    pub fn with_format(self, format: OutputFormat) -> (r: Self)
        ensures
            r == (StdoutSubscriber { format, ..self }),
    {
        StdoutSubscriber { format, ..self }
    }

    /// Set the least severity that is written.
    pub fn with_level_filter(self, level: Option<String>) -> (r: Self)
        ensures
            r == (StdoutSubscriber { level_filter: level, ..self }),
    {
        StdoutSubscriber { level_filter: level, ..self }
    }

    /// The identifier of the subscriber.
    pub fn subscriber_id(&self) -> (r: &str)
        ensures
            r@ == self.id@,
    {
        self.id.as_str()
    }

    /// The pattern of the event types that the subscriber wants: all.
    pub fn event_pattern(&self) -> (r: &'static str)
        ensures
            r@ == "*"@,
    {
        "*"
    }

    /// Whether an event is severe enough.
    pub fn allow(&self, event: &ApCoreEvent) -> (r: bool)
        ensures
            r == (match self.level_filter {
                Some(min) => rank_of(event@.severity) >= rank_of(min@),
                None => true,
            }),
    {
        match &self.level_filter {
            Some(min) => severity_rank(event.severity.as_str()) >= severity_rank(min.as_str()),
            None => true,
        }
    }

    /// What is written for an event, if anything.
    pub fn line(&self, event: &ApCoreEvent) -> (r: Option<String>)
        ensures
            match r {
                Some(s) => (self.level_filter matches Some(min) ==> rank_of(event@.severity) >= rank_of(min@)) && s@
                    == rendered(self.format, event@),
                None => self.level_filter matches Some(min) && rank_of(event@.severity) < rank_of(min@),
            },
    {
        if !self.allow(event) {
            return None;
        }
        Some(self.format.render(event))
    }
}

// ---------------------------------------------------------------------------
// Filter
// ---------------------------------------------------------------------------

/// Hands on to another subscriber the events that it lets through.
#[derive(Debug)]
pub struct FilterSubscriber<D> {
    pub id: String,
    pub delegate: D,
    pub include_events: Option<Vec<String>>,
    pub exclude_events: Option<Vec<String>>,
}

/// Whether one of the patterns fits an event type.
pub open spec fn any_fits(patterns: Seq<Seq<char>>, event_type: Seq<char>) -> bool {
    exists|i: int| 0 <= i < patterns.len() && wildcard::fits(#[trigger] patterns[i], event_type)
}

/// Whether a filter lets an event type through: with patterns to let in, those
/// that one of them fits; else, with patterns to keep out, those that none of
/// them fits; else all.
pub open spec fn lets_through(
    wanted: Option<Seq<Seq<char>>>,
    unwanted: Option<Seq<Seq<char>>>,
    event_type: Seq<char>,
) -> bool {
    match wanted {
        Some(p) => any_fits(p, event_type),
        None => match unwanted {
            Some(p) => !any_fits(p, event_type),
            None => true,
        },
    }
}

fn one_fits(patterns: &Vec<String>, event_type: &str) -> (r: bool)
    ensures
        r == any_fits(text::texts(patterns@), event_type@),
{
    let mut i: usize = 0;
    while i < patterns.len()
        invariant
            i <= patterns.len(),
            forall|j: int| 0 <= j < i ==> !wildcard::fits(#[trigger] text::texts(patterns@)[j], event_type@),
        decreases patterns.len() - i,
    {
        if match_glob_pattern(patterns[i].as_str(), event_type) {
            assert(wildcard::fits(text::texts(patterns@)[i as int], event_type@));
            return true;
        }
        i = i + 1;
    }
    false
}

/// Whether a pattern fits a text.
pub fn match_glob_pattern(pattern: &str, value: &str) -> (r: bool)
    ensures
        r == wildcard::fits(pattern@, value@),
{
    matches_wildcard(pattern, value)
}

impl<D> FilterSubscriber<D> {
    /// A filter with a new identifier that lets everything through.
    pub fn new(delegate: D) -> (r: Self)
        ensures
            ids::is_random_id(r.id@, "filter-"@),
            r.delegate == delegate,
            r.include_events is None,
            r.exclude_events is None,
    {
        FilterSubscriber { id: random_id("filter-"), delegate, include_events: None, exclude_events: None }
    }

    /// Set the identifier.
    pub fn with_id(self, id: &str) -> (r: Self)
        ensures
            r.id@ == id@,
            r == (FilterSubscriber { id: r.id, ..self }),
    {
        FilterSubscriber { id: id.to_owned(), ..self }
    }

    /// Set the patterns to let in.
    pub fn with_include(self, patterns: Vec<String>) -> (r: Self)
        ensures
            r == (FilterSubscriber { include_events: Some(patterns), ..self }),
    {
        FilterSubscriber { include_events: Some(patterns), ..self }
    }

    /// Set the patterns to keep out.
    pub fn with_exclude(self, patterns: Vec<String>) -> (r: Self)
        ensures
            r == (FilterSubscriber { exclude_events: Some(patterns), ..self }),
    {
        FilterSubscriber { exclude_events: Some(patterns), ..self }
    }

    /// Whether an event of this type is handed on.
    pub fn matches(&self, event_type: &str) -> (r: bool)
        ensures
            r == lets_through(module::opt_texts(self.include_events), module::opt_texts(self.exclude_events), event_type@),
    {
        match &self.include_events {
            Some(p) => {
                return one_fits(p, event_type);
            },
            None => {},
        }
        match &self.exclude_events {
            Some(p) => !one_fits(p, event_type),
            None => true,
        }
    }
}

/// What is let in decides alone: what is kept out then does not count.
pub proof fn include_wins(wanted: Seq<Seq<char>>, unwanted: Option<Seq<Seq<char>>>, event_type: Seq<char>)
    ensures
        lets_through(Some(wanted), unwanted, event_type) == lets_through(Some(wanted), None, event_type),
{
}

// ---------------------------------------------------------------------------
// Construction from configuration
// ---------------------------------------------------------------------------

/// A kind of subscriber.
#[derive(Debug, Clone, Copy, PartialEq, Eq, Structural)]
pub enum SubscriberKind {
    Webhook,
    A2A,
    File,
    Stdout,
    Filter,
    /// Made by a factory that was registered.
    Custom,
}

/// A subscriber made from a configuration.
#[derive(Debug)]
pub enum BuiltSubscriber {
    Webhook(WebhookSubscriber),
    A2A(A2ASubscriber),
    File(FileSubscriber),
    Stdout(StdoutSubscriber),
    Filter(Box<FilterSubscriber<BuiltSubscriber>>),
    /// The factory registered under this type is to make it from this
    /// configuration.
    Custom(String, JsonValue),
}

/// The event pattern of a subscriber; none where a factory is to make it, which
/// then gives its own. That of a filter is that of its delegate.
pub open spec fn pattern_of(b: BuiltSubscriber) -> Option<Seq<char>>
    decreases b,
{
    match b {
        BuiltSubscriber::Webhook(w) => Some(w.event_pattern@),
        BuiltSubscriber::A2A(a) => Some(a.event_pattern@),
        BuiltSubscriber::File(_) => Some("*"@),
        BuiltSubscriber::Stdout(_) => Some("*"@),
        BuiltSubscriber::Filter(f) => pattern_of(f.delegate),
        BuiltSubscriber::Custom(_, _) => None,
    }
}

impl BuiltSubscriber {
    /// The event pattern of the subscriber; none where a factory is to make it.
    pub fn event_pattern(&self) -> (r: Option<&str>)
        ensures
            text::opt_str(r) == pattern_of(*self),
        decreases self,
    {
        match self {
            BuiltSubscriber::Webhook(w) => Some(w.event_pattern()),
            BuiltSubscriber::A2A(a) => Some(a.event_pattern()),
            BuiltSubscriber::File(f) => Some(f.event_pattern()),
            BuiltSubscriber::Stdout(s) => Some(s.event_pattern()),
            BuiltSubscriber::Filter(f) => f.delegate.event_pattern(),
            BuiltSubscriber::Custom(_, _) => None,
        }
    }
}

impl FilterSubscriber<BuiltSubscriber> {
    /// The event pattern of the filter: that of its delegate.
    pub fn event_pattern(&self) -> (r: Option<&str>)
        ensures
            text::opt_str(r) == pattern_of(self.delegate),
    {
        self.delegate.event_pattern()
    }
}

/// The types of subscribers that can be made.
#[derive(Debug)]
pub struct SubscriberRegistry {
    pub types: StrMap<SubscriberKind>,
}

/// The types that are there from the start.
pub open spec fn builtin_types() -> Map<Seq<char>, SubscriberKind> {
    map![
        "webhook"@ => SubscriberKind::Webhook,
        "a2a"@ => SubscriberKind::A2A,
        "file"@ => SubscriberKind::File,
        "stdout"@ => SubscriberKind::Stdout,
        "filter"@ => SubscriberKind::Filter
    ]
}

fn register_builtin_factories(m: &mut StrMap<SubscriberKind>)
    requires
        old(m)@ == Map::<Seq<char>, SubscriberKind>::empty(),
    ensures
        final(m)@ == builtin_types(),
{
    m.insert("webhook".to_owned(), SubscriberKind::Webhook);
    m.insert("a2a".to_owned(), SubscriberKind::A2A);
    m.insert("file".to_owned(), SubscriberKind::File);
    m.insert("stdout".to_owned(), SubscriberKind::Stdout);
    m.insert("filter".to_owned(), SubscriberKind::Filter);
    assert(m@ =~= builtin_types());
}

impl SubscriberRegistry {
    /// A registry of the types that are there from the start.
    pub fn new() -> (r: Self)
        ensures
            r.types@ == builtin_types(),
    {
        let mut types = StrMap::new();
        register_builtin_factories(&mut types);
        SubscriberRegistry { types }
    }
}

/// Register a type whose subscribers a factory makes, in place of what the type
/// was before.
pub fn register_subscriber_type(registry: &mut SubscriberRegistry, name: &str)
    ensures
        final(registry).types@ == old(registry).types@.insert(name@, SubscriberKind::Custom),
{
    registry.types.insert(name.to_owned(), SubscriberKind::Custom);
}

/// Remove a type; an error where it is not registered.
pub fn unregister_subscriber_type(registry: &mut SubscriberRegistry, name: &str) -> (r: Result<(), ModuleError>)
    ensures
        final(registry).types@ == old(registry).types@.remove(name@),
        match r {
            Ok(_) => old(registry).types@.contains_key(name@),
            Err(e) => !old(registry).types@.contains_key(name@) && e@ == errors::plain_error(
                ErrorCode::GeneralInternalError,
                "Subscriber type '"@ + name@ + "' is not registered"@,
                e@.timestamp,
            ),
        },
{
    match registry.types.remove(name) {
        Some(_) => Ok(()),
        None => {
            let message = cat3("Subscriber type '", name, "' is not registered");
            Err(ModuleError::new(ErrorCode::GeneralInternalError, message.as_str()))
        },
    }
}

/// Go back to the types that are there from the start.
pub fn reset_subscriber_registry(registry: &mut SubscriberRegistry)
    ensures
        final(registry).types@ == builtin_types(),
{
    registry.types.clear();
    register_builtin_factories(&mut registry.types);
}

/// The string under a name of a configuration.
pub open spec fn config_str(config: Json, k: Seq<char>) -> Option<Seq<char>> {
    match json::json_get(config, k) {
        Some(Json::Str(s)) => Some(s),
        _ => None,
    }
}

/// The non-negative integer under a name of a configuration.
pub open spec fn config_uint(config: Json, k: Seq<char>) -> Option<int> {
    match json::json_get(config, k) {
        Some(Json::PosInt(n)) => Some(n),
        _ => None,
    }
}

/// The patterns under a name of a configuration.
pub open spec fn config_patterns(config: Json, k: Seq<char>) -> Option<Seq<Seq<char>>> {
    match json::json_get(config, k) {
        Some(Json::Arr(a)) => Some(string_items(a)),
        _ => None,
    }
}

/// The headers of a configuration.
pub open spec fn config_headers(config: Json) -> Map<Seq<char>, Seq<char>> {
    match json::json_get(config, "headers"@) {
        Some(Json::Obj(m)) => string_entries(m),
        _ => Map::empty(),
    }
}

/// The authorisation of a configuration.
pub open spec fn config_auth(config: Json) -> Option<AuthView> {
    match json::json_get(config, "auth"@) {
        Some(Json::Str(s)) => Some(AuthView::Bearer(s)),
        Some(Json::Obj(m)) => Some(AuthView::Headers(string_entries(m))),
        _ => None,
    }
}

/// The number of repetitions of a configuration: three where it names none that
/// fits.
pub open spec fn config_retries(config: Json) -> int {
    match config_uint(config, "retry_count"@) {
        Some(n) => if n <= u32::MAX {
            n
        } else {
            3
        },
        None => 3,
    }
}

/// The time for a request of a configuration.
pub open spec fn config_timeout(config: Json) -> int {
    match config_uint(config, "timeout_ms"@) {
        Some(n) => n,
        None => 5000,
    }
}

fn read_str<'a>(config: &'a JsonValue, k: &str) -> (r: Option<&'a str>)
    ensures
        text::opt_str(r) == config_str(config@, k@),
{
    match config.get(k) {
        Some(v) => v.as_str(),
        None => None,
    }
}

fn read_uint(config: &JsonValue, k: &str) -> (r: Option<u64>)
    ensures
        match r {
            Some(n) => config_uint(config@, k@) == Some(n as int),
            None => config_uint(config@, k@) is None,
        },
{
    match config.get(k) {
        Some(v) => v.as_u64(),
        None => None,
    }
}

fn read_pattern_list(config: &JsonValue, k: &str) -> (r: Option<Vec<String>>)
    ensures
        module::opt_texts(r) == config_patterns(config@, k@),
{
    match config.get(k) {
        Some(v) => match v.as_array() {
            Some(a) => Some(read_patterns(a)),
            None => None,
        },
        None => None,
    }
}

/// Why no subscriber can be made of a configuration.
pub open spec fn config_error(message: Seq<char>, timestamp: Timestamp) -> ErrorView {
    errors::plain_error(ErrorCode::ConfigInvalid, message, timestamp)
}

/// The configuration that a factory is given: with the type set, where it is an
/// object.
pub open spec fn typed_config(config: Option<Json>, name: Seq<char>) -> Json {
    match config {
        Some(Json::Obj(m)) => Json::Obj(m.insert("type"@, Json::Str(name))),
        Some(v) => v,
        None => Json::Obj(map!["type"@ => Json::Str(name)]),
    }
}

/// A configuration, empty where there is none.
pub open spec fn or_empty(config: Option<Json>) -> Json {
    match config {
        Some(v) => v,
        None => Json::Obj(Map::empty()),
    }
}

/// Why no subscriber of a type can be made of a configuration, if so.
pub open spec fn refused_because(
    types: Map<Seq<char>, SubscriberKind>,
    name: Seq<char>,
    config: Option<Json>,
) -> Option<Seq<char>>
    decreases (if config is Some { 1nat } else { 0nat }), config->0,
{
    let c = or_empty(config);
    if !types.contains_key(name) {
        Some("Unknown subscriber type '"@ + name + "'"@)
    } else {
        match types[name] {
            SubscriberKind::Webhook => if config_str(c, "url"@) is None {
                Some("webhook: 'url' is required"@)
            } else {
                None
            },
            SubscriberKind::A2A => if config_str(c, "platform_url"@) is None {
                Some("a2a: 'platform_url' is required"@)
            } else {
                None
            },
            SubscriberKind::File => if config_str(c, "path"@) is None {
                Some("file: 'path' is required"@)
            } else {
                None
            },
            SubscriberKind::Stdout => None,
            SubscriberKind::Custom => None,
            SubscriberKind::Filter => match config_str(c, "delegate_type"@) {
                None => Some("filter: 'delegate_type' is required"@),
                Some(t) => if config is None {
                    None
                } else {
                    proof {
                        if json::json_get(c, "delegate_config"@) is Some {
                            json::lemma_entry_is_smaller(c, "delegate_config"@);
                        }
                    }
                    match json::json_get(c, "delegate_config"@) {
                        Some(Json::Obj(m)) => refused_because(types, t, Some(Json::Obj(m))),
                        Some(_) => Some("filter: 'delegate_config' must be an object"@),
                        None => refused_because(types, t, None),
                    }
                },
            },
        }
    }
}

/// Whether a subscriber is the one that a configuration asks for.
pub open spec fn is_made_from(
    b: BuiltSubscriber,
    types: Map<Seq<char>, SubscriberKind>,
    name: Seq<char>,
    config: Option<Json>,
) -> bool
    decreases (if config is Some { 1nat } else { 0nat }), config->0,
{
    let c = or_empty(config);
    types.contains_key(name) && match types[name] {
        SubscriberKind::Webhook => {
            &&& b matches BuiltSubscriber::Webhook(w)
            &&& ids::is_random_id(w.id@, "webhook-"@)
            &&& config_str(c, "url"@) == Some(w.url@)
            &&& w.event_pattern@ == "*"@
            &&& text_map(w.headers@) == config_headers(c)
            &&& w.retry_count == config_retries(c)
            &&& w.timeout_ms == config_timeout(c)
        },
        SubscriberKind::A2A => {
            &&& b matches BuiltSubscriber::A2A(a)
            &&& ids::is_random_id(a.id@, "a2a-"@)
            &&& config_str(c, "platform_url"@) == Some(a.platform_url@)
            &&& a.event_pattern@ == "*"@
            &&& opt_auth(a.auth) == config_auth(c)
            &&& a.timeout_ms == config_timeout(c)
        },
        SubscriberKind::File => {
            &&& b matches BuiltSubscriber::File(f)
            &&& ids::is_random_id(f.id@, "file-"@)
            &&& config_str(c, "path"@) == Some(f.path@)
            &&& f.format == format_of(config_str(c, "format"@))
            &&& f.append == (match json::json_get(c, "append"@) {
                Some(Json::Bool(x)) => x,
                _ => true,
            })
            &&& match f.rotate_bytes {
                Some(n) => config_uint(c, "rotate_bytes"@) == Some(n as int),
                None => config_uint(c, "rotate_bytes"@) is None,
            }
        },
        SubscriberKind::Stdout => {
            &&& b matches BuiltSubscriber::Stdout(s)
            &&& ids::is_random_id(s.id@, "stdout-"@)
            &&& s.format == format_of(config_str(c, "format"@))
            &&& text::opt_text(s.level_filter) == config_str(c, "level_filter"@)
        },
        SubscriberKind::Custom => {
            &&& b matches BuiltSubscriber::Custom(n, v)
            &&& n@ == name
            &&& v@ == typed_config(config, name)
        },
        SubscriberKind::Filter => {
            &&& b matches BuiltSubscriber::Filter(f)
            &&& ids::is_random_id(f.id@, "filter-"@)
            &&& module::opt_texts(f.include_events) == config_patterns(c, "include_events"@)
            &&& module::opt_texts(f.exclude_events) == config_patterns(c, "exclude_events"@)
            &&& config is Some
            &&& config_str(c, "delegate_type"@) is Some
            &&& {
                proof {
                    if json::json_get(c, "delegate_config"@) is Some {
                        json::lemma_entry_is_smaller(c, "delegate_config"@);
                    }
                }
                let t = config_str(c, "delegate_type"@)->0;
                match json::json_get(c, "delegate_config"@) {
                    Some(Json::Obj(m)) => is_made_from(f.delegate, types, t, Some(Json::Obj(m))),
                    Some(_) => false,
                    None => is_made_from(f.delegate, types, t, None),
                }
            }
        },
    }
}

fn config_refusal(message: &str) -> (r: ModuleError)
    ensures
        r@ == config_error(message@, r@.timestamp),
{
    ModuleError::new(ErrorCode::ConfigInvalid, message)
}

fn build_webhook_subscriber(config: &JsonValue) -> (r: Result<WebhookSubscriber, ModuleError>)
    ensures
        match r {
            Ok(w) => {
                &&& ids::is_random_id(w.id@, "webhook-"@)
                &&& config_str(config@, "url"@) == Some(w.url@)
                &&& w.event_pattern@ == "*"@
                &&& text_map(w.headers@) == config_headers(config@)
                &&& w.retry_count == config_retries(config@)
                &&& w.timeout_ms == config_timeout(config@)
            },
            Err(e) => config_str(config@, "url"@) is None && e@ == config_error(
                "webhook: 'url' is required"@,
                e@.timestamp,
            ),
        },
{
    let url = match read_str(config, "url") {
        Some(u) => u,
        None => {
            return Err(config_refusal("webhook: 'url' is required"));
        },
    };
    let retry_count: u32 = match read_uint(config, "retry_count") {
        Some(n) => if n <= 0xffff_ffff {
            n as u32
        } else {
            3
        },
        None => 3,
    };
    let timeout_ms: u64 = match read_uint(config, "timeout_ms") {
        Some(n) => n,
        None => 5000,
    };
    let id = random_id("webhook-");
    let mut sub = WebhookSubscriber::new(id.as_str(), url, "*");
    match config.get("headers") {
        Some(v) => match v.as_object() {
            Some(m) => {
                sub.headers = read_headers(m);
            },
            None => {
                assert(text_map(sub.headers@) =~= Map::empty());
            },
        },
        None => {
            assert(text_map(sub.headers@) =~= Map::empty());
        },
    }
    sub.retry_count = retry_count;
    sub.timeout_ms = timeout_ms;
    Ok(sub)
}

fn build_a2a_subscriber(config: &JsonValue) -> (r: Result<A2ASubscriber, ModuleError>)
    ensures
        match r {
            Ok(a) => {
                &&& ids::is_random_id(a.id@, "a2a-"@)
                &&& config_str(config@, "platform_url"@) == Some(a.platform_url@)
                &&& a.event_pattern@ == "*"@
                &&& opt_auth(a.auth) == config_auth(config@)
                &&& a.timeout_ms == config_timeout(config@)
            },
            Err(e) => config_str(config@, "platform_url"@) is None && e@ == config_error(
                "a2a: 'platform_url' is required"@,
                e@.timestamp,
            ),
        },
{
    broadcast use crate::json::lemma_value_view;
    let url = match read_str(config, "platform_url") {
        Some(u) => u,
        None => {
            return Err(config_refusal("a2a: 'platform_url' is required"));
        },
    };
    let timeout_ms: u64 = match read_uint(config, "timeout_ms") {
        Some(n) => n,
        None => 5000,
    };
    let auth = match config.get("auth") {
        Some(JsonValue::String(s)) => Some(A2AAuth::Bearer(s.clone())),
        Some(JsonValue::Object(m)) => Some(A2AAuth::Headers(read_headers(m))),
        _ => None,
    };
    let id = random_id("a2a-");
    let mut sub = A2ASubscriber::new(id.as_str(), url, "*");
    sub.auth = auth;
    sub.timeout_ms = timeout_ms;
    Ok(sub)
}

fn build_file_subscriber(config: &JsonValue) -> (r: Result<FileSubscriber, ModuleError>)
    ensures
        match r {
            Ok(f) => {
                &&& ids::is_random_id(f.id@, "file-"@)
                &&& config_str(config@, "path"@) == Some(f.path@)
                &&& f.format == format_of(config_str(config@, "format"@))
                &&& f.append == (match json::json_get(config@, "append"@) {
                    Some(Json::Bool(x)) => x,
                    _ => true,
                })
                &&& match f.rotate_bytes {
                    Some(n) => config_uint(config@, "rotate_bytes"@) == Some(n as int),
                    None => config_uint(config@, "rotate_bytes"@) is None,
                }
            },
            Err(e) => config_str(config@, "path"@) is None && e@ == config_error("file: 'path' is required"@, e@.timestamp),
        },
{
    let path = match read_str(config, "path") {
        Some(p) => p,
        None => {
            return Err(config_refusal("file: 'path' is required"));
        },
    };
    let format = OutputFormat::from_config_str(read_str(config, "format"));
    let append = match config.get("append") {
        Some(v) => match v.as_bool() {
            Some(b) => b,
            None => true,
        },
        None => true,
    };
    let rotate_bytes = read_uint(config, "rotate_bytes");
    Ok(FileSubscriber::new(path).with_format(format).with_append(append).with_rotate_bytes(rotate_bytes))
}

fn build_stdout_subscriber(config: &JsonValue) -> (r: StdoutSubscriber)
    ensures
        ids::is_random_id(r.id@, "stdout-"@),
        r.format == format_of(config_str(config@, "format"@)),
        text::opt_text(r.level_filter) == config_str(config@, "level_filter"@),
{
    let format = OutputFormat::from_config_str(read_str(config, "format"));
    let level = match read_str(config, "level_filter") {
        Some(l) => Some(l.to_owned()),
        None => None,
    };
    StdoutSubscriber::new().with_format(format).with_level_filter(level)
}

fn with_type(config: Option<&JsonValue>, name: &str) -> (r: JsonValue)
    ensures
        r@ == typed_config(opt_value(config), name@),
{
    broadcast use crate::json::lemma_value_view;
    match config {
        Some(JsonValue::Object(m)) => {
            let mut out = clone_object(m);
            put(&mut out, "type", JsonValue::str(name));
            JsonValue::Object(out)
        },
        Some(v) => v.clone(),
        None => {
            let mut out = empty_object();
            put(&mut out, "type", JsonValue::str(name));
            JsonValue::Object(out)
        },
    }
}

/// The value of an optional reference.
pub open spec fn opt_value(o: Option<&JsonValue>) -> Option<Json> {
    match o {
        Some(v) => Some(v@),
        None => None,
    }
}

/// A subscriber of a type from a configuration, which is empty where there is
/// none.
fn create_as(registry: &SubscriberRegistry, name: &str, config: Option<&JsonValue>) -> (r: Result<BuiltSubscriber, ModuleError>)
    ensures
        match r {
            Ok(b) => refused_because(registry.types@, name@, opt_value(config)) is None && is_made_from(
                b,
                registry.types@,
                name@,
                opt_value(config),
            ),
            Err(e) => refused_because(registry.types@, name@, opt_value(config)) == Some(e@.message) && e@
                == config_error(e@.message, e@.timestamp),
        },
    decreases (if config is Some { 1nat } else { 0nat }), config->0@,
{
    broadcast use crate::json::lemma_value_view;
    let kind = match registry.types.get(name) {
        Some(k) => *k,
        None => {
            let message = cat3("Unknown subscriber type '", name, "'");
            return Err(config_refusal(message.as_str()));
        },
    };
    let empty = JsonValue::Object(empty_object());
    let c = match config {
        Some(v) => v,
        None => &empty,
    };
    assert(c@ == or_empty(opt_value(config)));
    match kind {
        SubscriberKind::Webhook => match build_webhook_subscriber(c) {
            Ok(w) => Ok(BuiltSubscriber::Webhook(w)),
            Err(e) => Err(e),
        },
        SubscriberKind::A2A => match build_a2a_subscriber(c) {
            Ok(a) => Ok(BuiltSubscriber::A2A(a)),
            Err(e) => Err(e),
        },
        SubscriberKind::File => match build_file_subscriber(c) {
            Ok(f) => Ok(BuiltSubscriber::File(f)),
            Err(e) => Err(e),
        },
        SubscriberKind::Stdout => Ok(BuiltSubscriber::Stdout(build_stdout_subscriber(c))),
        SubscriberKind::Custom => Ok(BuiltSubscriber::Custom(name.to_owned(), with_type(config, name))),
        SubscriberKind::Filter => {
            let t = match read_str(c, "delegate_type") {
                Some(t) => t,
                None => {
                    return Err(config_refusal("filter: 'delegate_type' is required"));
                },
            };
            let inner = c.get("delegate_config");
            match inner {
                Some(v) => {
                    if !v.is_object() {
                        return Err(config_refusal("filter: 'delegate_config' must be an object"));
                    }
                    proof {
                        json::lemma_entry_is_smaller(c@, "delegate_config"@);
                    }
                },
                None => {},
            }
            let delegate = match create_as(registry, t, inner) {
                Ok(d) => d,
                Err(e) => {
                    return Err(e);
                },
            };
            let mut sub = FilterSubscriber::new(delegate);
            match read_pattern_list(c, "include_events") {
                Some(p) => {
                    sub = sub.with_include(p);
                },
                None => {},
            }
            match read_pattern_list(c, "exclude_events") {
                Some(p) => {
                    sub = sub.with_exclude(p);
                },
                None => {},
            }
            Ok(BuiltSubscriber::Filter(Box::new(sub)))
        },
    }
}

/// A subscriber from a configuration, which names its type.
pub fn create_subscriber(registry: &SubscriberRegistry, config: &JsonValue) -> (r: Result<BuiltSubscriber, ModuleError>)
    ensures
        match config_str(config@, "type"@) {
            None => r matches Err(e) && e@ == config_error("subscriber config missing 'type' field"@, e@.timestamp),
            Some(name) => match r {
                Ok(b) => refused_because(registry.types@, name, Some(config@)) is None && is_made_from(
                    b,
                    registry.types@,
                    name,
                    Some(config@),
                ),
                Err(e) => refused_because(registry.types@, name, Some(config@)) == Some(e@.message) && e@ == config_error(
                    e@.message,
                    e@.timestamp,
                ),
            },
        },
{
    match read_str(config, "type") {
        Some(name) => create_as(registry, name, Some(config)),
        None => Err(config_refusal("subscriber config missing 'type' field")),
    }
}

/// A type that was registered and removed again is unknown, whatever it was
/// before.
pub proof fn a_removed_type_is_unknown(types: Map<Seq<char>, SubscriberKind>, name: Seq<char>, config: Json)
    ensures
        refused_because(types.insert(name, SubscriberKind::Custom).remove(name), name, Some(config)) == Some(
            "Unknown subscriber type '"@ + name + "'"@,
        ),
{
}

/// The factory of a registered type is given the configuration as it is.
pub proof fn a_factory_gets_its_configuration(config: Json, name: Seq<char>)
    requires
        config_str(config, "type"@) == Some(name),
    ensures
        typed_config(Some(config), name) == config,
{
    assert(config->Obj_0.insert("type"@, Json::Str(name)) =~= config->Obj_0);
}

/// Severities are ordered from warnings over errors to fatal ones; whatever else
/// there is ranks below them all alike.
pub proof fn severities_are_ordered(level: Seq<char>)
    ensures
        rank_of("info"@) < rank_of("warn"@) < rank_of("error"@) < rank_of("fatal"@),
        level != "warn"@ && level != "error"@ && level != "fatal"@ ==> rank_of(level) == rank_of("info"@),
{
    reveal_strlit("info");
    reveal_strlit("warn");
    reveal_strlit("error");
    reveal_strlit("fatal");
    assert("info"@.len() == 4 && "warn"@.len() == 4 && "error"@.len() == 5 && "fatal"@.len() == 5);
    assert("info"@[0] != "warn"@[0] && "error"@[0] != "fatal"@[0]);
}

/// Of a list the texts are read, all of them in their order, and nothing else.
pub proof fn texts_of_a_list_are_read(s: Seq<Json>)
    ensures
        string_items(s) == s.filter(|v: Json| v is Str).map_values(|v: Json| v->Str_0),
        (forall|i: int| 0 <= i < s.len() ==> (#[trigger] s[i]) is Str) ==> string_items(s).len() == s.len() && forall|i: int|
            0 <= i < s.len() ==> (#[trigger] s[i]) == Json::Str(string_items(s)[i]),
    decreases s.len(),
{
    reveal(Seq::filter);
    let is_text = |v: Json| v is Str;
    if s.len() > 0 {
        let p = s.drop_last();
        texts_of_a_list_are_read(p);
        if s.last() is Str {
            assert(s.filter(is_text) =~= p.filter(is_text).push(s.last()));
        } else {
            assert(s.filter(is_text) =~= p.filter(is_text));
        }
        if forall|i: int| 0 <= i < s.len() ==> (#[trigger] s[i]) is Str {
            assert forall|i: int| 0 <= i < p.len() implies (#[trigger] p[i]) is Str by {
                assert(s[i] is Str);
            }
            assert(s[s.len() - 1] is Str);
            assert forall|i: int| 0 <= i < s.len() implies (#[trigger] s[i]) == Json::Str(string_items(s)[i]) by {
                if i < p.len() {
                    assert(p[i] == s[i]);
                }
            }
        }
    }
    assert(string_items(s) =~= s.filter(is_text).map_values(|v: Json| v->Str_0));
}

/// A filter with patterns to include lets through what one of them fits, and one
/// with patterns to exclude what none of them fits; without patterns everything.
pub proof fn a_filter_lets_through_what_it_should(
    wanted: Seq<Seq<char>>,
    unwanted: Seq<Seq<char>>,
    unwanted_too: Option<Seq<Seq<char>>>,
    event_type: Seq<char>,
)
    ensures
        lets_through(Some(wanted), unwanted_too, event_type) <==> exists|i: int|
            0 <= i < wanted.len() && wildcard::fits(#[trigger] wanted[i], event_type),
        lets_through(None, Some(unwanted), event_type) <==> forall|i: int|
            0 <= i < unwanted.len() ==> !wildcard::fits(#[trigger] unwanted[i], event_type),
        lets_through(None, None, event_type),
{
}

/// A filter asks for the events that its delegate asks for; a file and the
/// standard output for all of them.
pub proof fn a_filter_asks_as_its_delegate(b: BuiltSubscriber)
    ensures
        b matches BuiltSubscriber::Filter(f) ==> pattern_of(b) == pattern_of(f.delegate),
        b matches BuiltSubscriber::Webhook(w) ==> pattern_of(b) == Some(w.event_pattern@),
        b matches BuiltSubscriber::A2A(a) ==> pattern_of(b) == Some(a.event_pattern@),
        b is File || b is Stdout ==> pattern_of(b) == Some("*"@),
{
}

/// The built-in types are those of their names, and there are no others.
pub proof fn builtin_types_go_by_their_names(name: Seq<char>)
    ensures
        builtin_types().contains_key("webhook"@) && builtin_types()["webhook"@] is Webhook,
        builtin_types().contains_key("a2a"@) && builtin_types()["a2a"@] is A2A,
        builtin_types().contains_key("file"@) && builtin_types()["file"@] is File,
        builtin_types().contains_key("stdout"@) && builtin_types()["stdout"@] is Stdout,
        builtin_types().contains_key("filter"@) && builtin_types()["filter"@] is Filter,
        builtin_types().contains_key(name) ==> name == "webhook"@ || name == "a2a"@ || name == "file"@ || name == "stdout"@
            || name == "filter"@,
{
    reveal_strlit("webhook");
    reveal_strlit("a2a");
    reveal_strlit("file");
    reveal_strlit("stdout");
    reveal_strlit("filter");
    assert("webhook"@.len() == 7 && "a2a"@.len() == 3 && "file"@.len() == 4 && "stdout"@.len() == 6 && "filter"@.len() == 6);
    assert("stdout"@[0] != "filter"@[0]);
}

/// A subscriber is refused where its type is unknown or what its type needs is
/// missing, and a filter where its delegate is refused; else it is made.
pub proof fn what_a_subscriber_needs(types: Map<Seq<char>, SubscriberKind>, name: Seq<char>, config: Map<Seq<char>, Json>)
    ensures
        ({
            let c = Json::Obj(config);
            let r = refused_because(types, name, Some(c));
            &&& !types.contains_key(name) ==> r is Some
            &&& types.contains_key(name) && types[name] is Webhook ==> (r is None <==> config.contains_key("url"@)
                && config["url"@] is Str)
            &&& types.contains_key(name) && types[name] is A2A ==> (r is None <==> config.contains_key("platform_url"@)
                && config["platform_url"@] is Str)
            &&& types.contains_key(name) && types[name] is File ==> (r is None <==> config.contains_key("path"@)
                && config["path"@] is Str)
            &&& types.contains_key(name) && types[name] is Stdout ==> r is None
            &&& types.contains_key(name) && types[name] is Custom ==> r is None
            &&& types.contains_key(name) && types[name] is Filter && config.contains_key("delegate_type"@) && (
            config["delegate_type"@] is Str) && config.contains_key("delegate_config"@) && config["delegate_config"@] is Obj
                ==> r == refused_because(types, config["delegate_type"@]->Str_0, Some(config["delegate_config"@]))
            &&& types.contains_key(name) && types[name] is Filter && !(config.contains_key("delegate_type"@)
                && config["delegate_type"@] is Str) ==> r is Some
            &&& types.contains_key(name) && types[name] is Filter && config.contains_key("delegate_config"@) && !(
            config["delegate_config"@] is Obj) ==> r is Some
        }),
{
}

/// A webhook is made with the address, the headers, the repetitions and the time
/// limit of its configuration, and with defaults for what it leaves out.
pub proof fn a_webhook_takes_its_configuration(
    b: BuiltSubscriber,
    types: Map<Seq<char>, SubscriberKind>,
    name: Seq<char>,
    config: Map<Seq<char>, Json>,
)
    requires
        is_made_from(b, types, name, Some(Json::Obj(config))),
        types[name] is Webhook,
    ensures
        b matches BuiltSubscriber::Webhook(w) && {
            &&& config.contains_key("url"@) && config["url"@] == Json::Str(w.url@)
            &&& w.event_pattern@ == "*"@
            &&& config.contains_key("retry_count"@) && (config["retry_count"@] matches Json::PosInt(n) && n <= u32::MAX)
                ==> config["retry_count"@] == Json::PosInt(w.retry_count as int)
            &&& !config.contains_key("retry_count"@) ==> w.retry_count == 3
            &&& config.contains_key("timeout_ms"@) && config["timeout_ms"@] is PosInt ==> config["timeout_ms"@]
                == Json::PosInt(w.timeout_ms as int)
            &&& !config.contains_key("timeout_ms"@) ==> w.timeout_ms == 5000
            &&& !config.contains_key("headers"@) ==> text_map(w.headers@) == Map::<Seq<char>, Seq<char>>::empty()
            &&& config.contains_key("headers"@) && config["headers"@] is Obj ==> forall|k: Seq<char>|
                {
                    let h = config["headers"@]->Obj_0;
                    (#[trigger] text_map(w.headers@).contains_key(k) <==> h.contains_key(k) && h[k] is Str) && (h.contains_key(
                        k,
                    ) && h[k] is Str ==> h[k] == Json::Str(text_map(w.headers@)[k]))
                }
        },
{
}

/// A subscriber of a platform is made with the address, the authorisation and the
/// time limit of its configuration.
pub proof fn a_platform_takes_its_configuration(
    b: BuiltSubscriber,
    types: Map<Seq<char>, SubscriberKind>,
    name: Seq<char>,
    config: Map<Seq<char>, Json>,
)
    requires
        is_made_from(b, types, name, Some(Json::Obj(config))),
        types[name] is A2A,
    ensures
        b matches BuiltSubscriber::A2A(a) && {
            &&& config.contains_key("platform_url"@) && config["platform_url"@] == Json::Str(a.platform_url@)
            &&& config.contains_key("auth"@) && (config["auth"@] is Str) ==> (a.auth matches Some(A2AAuth::Bearer(t))
                && config["auth"@] == Json::Str(t@))
            &&& config.contains_key("auth"@) && (config["auth"@] is Obj) ==> (a.auth matches Some(A2AAuth::Headers(m))
                && text_map(m@) == string_entries(config["auth"@]->Obj_0))
            &&& !config.contains_key("auth"@) ==> a.auth is None
            &&& config.contains_key("timeout_ms"@) && config["timeout_ms"@] is PosInt ==> config["timeout_ms"@]
                == Json::PosInt(a.timeout_ms as int)
        },
{
}

/// A file is written as its configuration says: its path, its format, whether to
/// append, and when to rotate.
pub proof fn a_file_takes_its_configuration(
    b: BuiltSubscriber,
    types: Map<Seq<char>, SubscriberKind>,
    name: Seq<char>,
    config: Map<Seq<char>, Json>,
)
    requires
        is_made_from(b, types, name, Some(Json::Obj(config))),
        types[name] is File,
    ensures
        b matches BuiltSubscriber::File(f) && {
            &&& config.contains_key("path"@) && config["path"@] == Json::Str(f.path@)
            &&& config.contains_key("format"@) && config["format"@] == Json::Str("json"@) ==> f.format == OutputFormat::Json
            &&& config.contains_key("format"@) && config["format"@] is Str && config["format"@] != Json::Str("json"@)
                ==> f.format == OutputFormat::Text
            &&& config.contains_key("append"@) && config["append"@] is Bool ==> config["append"@] == Json::Bool(f.append)
            &&& !config.contains_key("append"@) ==> f.append
            &&& config.contains_key("rotate_bytes"@) && config["rotate_bytes"@] is PosInt ==> (f.rotate_bytes matches Some(n)
                && config["rotate_bytes"@] == Json::PosInt(n as int))
            &&& !config.contains_key("rotate_bytes"@) ==> f.rotate_bytes is None
        },
{
}

/// A filter takes its patterns from its configuration and wraps the subscriber
/// that the configuration of its delegate makes.
pub proof fn a_filter_wraps_its_delegate(
    b: BuiltSubscriber,
    types: Map<Seq<char>, SubscriberKind>,
    name: Seq<char>,
    config: Map<Seq<char>, Json>,
)
    requires
        is_made_from(b, types, name, Some(Json::Obj(config))),
        types[name] is Filter,
        config.contains_key("delegate_config"@),
        config["delegate_config"@] is Obj,
    ensures
        b matches BuiltSubscriber::Filter(f) && {
            &&& config.contains_key("delegate_type"@) && config["delegate_type"@] is Str
            &&& is_made_from(f.delegate, types, config["delegate_type"@]->Str_0, Some(config["delegate_config"@]))
            &&& config.contains_key("include_events"@) && config["include_events"@] is Arr ==> module::opt_texts(
                f.include_events,
            ) == Some(string_items(config["include_events"@]->Arr_0))
            &&& !config.contains_key("include_events"@) ==> f.include_events is None
            &&& config.contains_key("exclude_events"@) && config["exclude_events"@] is Arr ==> module::opt_texts(
                f.exclude_events,
            ) == Some(string_items(config["exclude_events"@]->Arr_0))
            &&& !config.contains_key("exclude_events"@) ==> f.exclude_events is None
        },
{
    json::lemma_entry_is_smaller(Json::Obj(config), "delegate_config"@);
}

/// A registered type gets its whole configuration, with its own name as the type.
pub proof fn a_registered_type_gets_everything(
    b: BuiltSubscriber,
    types: Map<Seq<char>, SubscriberKind>,
    name: Seq<char>,
    config: Map<Seq<char>, Json>,
)
    requires
        is_made_from(b, types, name, Some(Json::Obj(config))),
        types[name] is Custom,
    ensures
        b matches BuiltSubscriber::Custom(n, v) && n@ == name && json::json_get(v@, "type"@) == Some(Json::Str(name)) && forall|
            k: Seq<char>,
        |
            k != "type"@ ==> #[trigger] json::json_get(v@, k) == json::json_get(Json::Obj(config), k),
{
}

/// The message to a platform carries the whole event.
pub proof fn a_platform_gets_the_whole_event(e: EventView)
    ensures
        json::json_get(a2a_message(e), "skillId"@) == Some(Json::Str("apevo.event_receiver"@)),
        json::json_get(a2a_message(e), "event"@) matches Some(x) && {
            &&& json::json_get(x, "event_type"@) == Some(Json::Str(e.event_type))
            &&& json::json_get(x, "timestamp"@) == Some(Json::Str(e.timestamp))
            &&& json::json_get(x, "severity"@) == Some(Json::Str(e.severity))
            &&& json::json_get(x, "data"@) == Some(e.data)
            &&& e.module_id matches Some(m) ==> json::json_get(x, "module_id"@) == Some(Json::Str(m))
            &&& e.module_id is None ==> json::json_get(x, "module_id"@) == Some(Json::Null)
        },
{
    reveal_strlit("skillId");
    reveal_strlit("event");
    reveal_strlit("event_type");
    reveal_strlit("timestamp");
    reveal_strlit("severity");
    reveal_strlit("data");
    reveal_strlit("module_id");
    assert("skillId"@.len() == 7 && "event"@.len() == 5 && "event_type"@.len() == 10 && "timestamp"@.len() == 9);
    assert("severity"@.len() == 8 && "data"@.len() == 4 && "module_id"@.len() == 9);
    assert("module_id"@[0] != "timestamp"@[0]);
}

} // verus!
