//! Events.
use vstd::prelude::*;
use vstd::string::*;
use crate::clock::Timestamp;
use crate::json::{empty_object, Json, JsonValue, put, to_text};
use crate::text::{cat5, clone_opt, to_upper};
use crate::clock;
use crate::errors;
use crate::json;
use crate::text;

verus! {

/// An event.
#[derive(Debug)]
pub struct ApCoreEvent {
    pub event_type: String,
    /// ISO 8601 text.
    pub timestamp: String,
    pub data: JsonValue,
    pub module_id: Option<String>,
    pub severity: String,
}

/// The mathematical contents of an event.
#[verifier::ext_equal]
pub struct EventView {
    pub event_type: Seq<char>,
    pub timestamp: Seq<char>,
    pub data: Json,
    pub module_id: Option<Seq<char>>,
    pub severity: Seq<char>,
}

impl View for ApCoreEvent {
    type V = EventView;

    open spec fn view(&self) -> EventView {
        EventView {
            event_type: self.event_type@,
            timestamp: self.timestamp@,
            data: self.data@,
            module_id: text::opt_text(self.module_id),
            severity: self.severity@,
        }
    }
}

impl Clone for ApCoreEvent {
    fn clone(&self) -> (r: Self)
        ensures
            r@ == self@,
    {
        ApCoreEvent {
            event_type: self.event_type.clone(),
            timestamp: self.timestamp.clone(),
            data: self.data.clone(),
            module_id: clone_opt(&self.module_id),
            severity: self.severity.clone(),
        }
    }
}

/// The fields of an event as JSON; a missing module is left out.
pub open spec fn event_fields(e: EventView) -> Map<Seq<char>, Json> {
    errors::put_opt(
        map![
            "event_type"@ => Json::Str(e.event_type),
            "timestamp"@ => Json::Str(e.timestamp),
            "data"@ => e.data,
            "severity"@ => Json::Str(e.severity)
        ],
        "module_id"@,
        errors::opt_json_str(e.module_id),
    )
}

/// The text of an event as one line of JSON, its fields in the order of their
/// declaration.
pub open spec fn event_line(e: EventView) -> Seq<char> {
    let head = "{\"event_type\":"@ + json::json_text(Json::Str(e.event_type)) + ",\"timestamp\":"@ + json::json_text(
        Json::Str(e.timestamp),
    ) + ",\"data\":"@ + json::json_text(json::held(e.data));
    let module = match e.module_id {
        Some(m) => head + ",\"module_id\":"@ + json::json_text(Json::Str(m)),
        None => head,
    };
    module + ",\"severity\":"@ + json::json_text(Json::Str(e.severity)) + "}"@
}

/// The text of an event as one line for people.
pub open spec fn event_text(e: EventView) -> Seq<char> {
    let module = match e.module_id {
        Some(m) => m,
        None => "None"@,
    };
    "["@ + e.timestamp + "] ["@ + text::uppercase(e.severity) + "] "@ + e.event_type + " module="@ + module + " data="@
        + json::json_text(json::held(e.data))
}

impl ApCoreEvent {
    /// An event of now with severity `info`.
    pub fn new(event_type: &str, data: JsonValue) -> (r: Self)
        ensures
            exists|t: Timestamp|
                r@ == (EventView {
                    event_type: event_type@,
                    timestamp: #[trigger] clock::offset_time_text(t),
                    data: data@,
                    module_id: None,
                    severity: "info"@,
                }),
    {
        let now = Timestamp::now();
        ApCoreEvent::at(event_type, data, None, "info", now)
    }

    /// An event of a point in time.
    pub fn at(event_type: &str, data: JsonValue, module_id: Option<&str>, severity: &str, time: Timestamp) -> (r: Self)
        ensures
            r@ == (EventView {
                event_type: event_type@,
                timestamp: clock::offset_time_text(time),
                data: data@,
                module_id: text::opt_str(module_id),
                severity: severity@,
            }),
    {
        ApCoreEvent {
            event_type: event_type.to_owned(),
            timestamp: time.to_offset_text(),
            data,
            module_id: match module_id {
                Some(m) => Some(m.to_owned()),
                None => None,
            },
            severity: severity.to_owned(),
        }
    }

    /// An event of now about a module.
    pub fn with_module(event_type: &str, data: JsonValue, module_id: &str, severity: &str) -> (r: Self)
        ensures
            exists|t: Timestamp|
                r@ == (EventView {
                    event_type: event_type@,
                    timestamp: #[trigger] clock::offset_time_text(t),
                    data: data@,
                    module_id: Some(module_id@),
                    severity: severity@,
                }),
    {
        let now = Timestamp::now();
        ApCoreEvent::at(event_type, data, Some(module_id), severity, now)
    }

    /// The event as JSON.
    pub fn to_json(&self) -> (r: JsonValue)
        ensures
            r@ == Json::Obj(event_fields(self@)),
    {
        broadcast use crate::json::lemma_value_view;
        let mut m = empty_object();
        put(&mut m, "event_type", JsonValue::str(self.event_type.as_str()));
        put(&mut m, "timestamp", JsonValue::str(self.timestamp.as_str()));
        put(&mut m, "data", self.data.clone());
        put(&mut m, "severity", JsonValue::str(self.severity.as_str()));
        assert(json::object_view(m) =~= map![
            "event_type"@ => Json::Str(self@.event_type),
            "timestamp"@ => Json::Str(self@.timestamp),
            "data"@ => self@.data,
            "severity"@ => Json::Str(self@.severity)
        ]);
        match &self.module_id {
            Some(id) => {
                put(&mut m, "module_id", JsonValue::str(id.as_str()));
            },
            None => {},
        }
        JsonValue::Object(m)
    }
}

fn text_json(s: &str) -> (r: String)
    ensures
        r@ == json::json_text(Json::Str(s@)),
{
    to_text(&JsonValue::str(s))
}

/// The event as one line for people.
pub fn render_event_text(event: &ApCoreEvent) -> (r: String)
    ensures
        r@ == event_text(event@),
{
    let module = match &event.module_id {
        Some(m) => m.as_str(),
        None => "None",
    };
    let level = to_upper(event.severity.as_str());
    let data = to_text(&event.data);
    let mut s = cat5("[", event.timestamp.as_str(), "] [", level.as_str(), "] ");
    s.append(event.event_type.as_str());
    s.append(" module=");
    s.append(module);
    s.append(" data=");
    s.append(data.as_str());
    s
}

/// The event as one line of JSON.
pub fn render_event_json(event: &ApCoreEvent) -> (r: String)
    ensures
        r@ == event_line(event@),
{
    let mut s = "{\"event_type\":".to_owned();
    s.append(text_json(event.event_type.as_str()).as_str());
    s.append(",\"timestamp\":");
    s.append(text_json(event.timestamp.as_str()).as_str());
    s.append(",\"data\":");
    s.append(to_text(&event.data).as_str());
    match &event.module_id {
        Some(m) => {
            s.append(",\"module_id\":");
            s.append(text_json(m.as_str()).as_str());
        },
        None => {},
    }
    s.append(",\"severity\":");
    s.append(text_json(event.severity.as_str()).as_str());
    s.append("}");
    s
}

/// An event is written with its type, its time, its data and its severity, and
/// with its module where it has one.
pub proof fn an_event_is_written_whole(e: EventView)
    ensures
        ({
            let m = event_fields(e);
            &&& m.contains_key("event_type"@) && m["event_type"@] == Json::Str(e.event_type)
            &&& m.contains_key("timestamp"@) && m["timestamp"@] == Json::Str(e.timestamp)
            &&& m.contains_key("data"@) && m["data"@] == e.data
            &&& m.contains_key("severity"@) && m["severity"@] == Json::Str(e.severity)
            &&& e.module_id matches Some(t) ==> m.contains_key("module_id"@) && m["module_id"@] == Json::Str(t)
            &&& e.module_id is None ==> !m.contains_key("module_id"@)
        }),
{
    reveal_strlit("event_type");
    reveal_strlit("timestamp");
    reveal_strlit("data");
    reveal_strlit("severity");
    reveal_strlit("module_id");
    assert("event_type"@.len() == 10 && "timestamp"@.len() == 9 && "data"@.len() == 4 && "severity"@.len() == 8);
    assert("module_id"@.len() == 9 && "module_id"@[0] != "timestamp"@[0]);
}

/// The line of an event holds each of its fields behind its name.
pub proof fn an_event_line_tells_everything(e: EventView)
    ensures
        text::has_infix(event_line(e), "\"event_type\":"@ + json::json_text(Json::Str(e.event_type))),
        text::has_infix(event_line(e), ",\"timestamp\":"@ + json::json_text(Json::Str(e.timestamp))),
        text::has_infix(event_line(e), ",\"data\":"@ + json::json_text(json::held(e.data))),
        e.module_id matches Some(m) ==> text::has_infix(event_line(e), ",\"module_id\":"@ + json::json_text(Json::Str(m))),
        text::has_infix(event_line(e), ",\"severity\":"@ + json::json_text(Json::Str(e.severity))),
{
    let all = event_line(e);
    let open = "{\"event_type\":"@;
    reveal_strlit("{\"event_type\":");
    reveal_strlit("\"event_type\":");
    let brace = open.subrange(0, 1);
    assert(open =~= brace + "\"event_type\":"@);
    let a = "\"event_type\":"@ + json::json_text(Json::Str(e.event_type));
    let b = ",\"timestamp\":"@ + json::json_text(Json::Str(e.timestamp));
    let c = ",\"data\":"@ + json::json_text(json::held(e.data));
    let m = match e.module_id {
        Some(m) => ",\"module_id\":"@ + json::json_text(Json::Str(m)),
        None => Seq::empty(),
    };
    let d = ",\"severity\":"@ + json::json_text(Json::Str(e.severity));
    let end = "}"@;
    assert(all =~= brace + a + b + c + m + d + end);
    text::a_part_stands_between(all, a, brace, b + c + m + d + end);
    assert(all =~= brace + a + (b + c + m + d + end));
    text::a_part_stands_between(all, b, brace + a, c + m + d + end);
    assert(all =~= brace + a + b + (c + m + d + end));
    text::a_part_stands_between(all, c, brace + a + b, m + d + end);
    assert(all =~= brace + a + b + c + (m + d + end));
    text::a_part_stands_between(all, m, brace + a + b + c, d + end);
    assert(all =~= brace + a + b + c + m + (d + end));
    text::a_part_stands_between(all, d, brace + a + b + c + m, end);
}

/// The text of an event tells its time and severity, its type, its module and its
/// data.
pub proof fn an_event_text_tells_everything(e: EventView)
    ensures
        text::has_infix(event_text(e), "["@ + e.timestamp + "] ["@ + text::uppercase(e.severity) + "] "@ + e.event_type),
        e.module_id matches Some(m) ==> text::has_infix(event_text(e), " module="@ + m + " data="@),
        text::has_infix(event_text(e), " data="@ + json::json_text(json::held(e.data))),
{
    let all = event_text(e);
    let module = match e.module_id {
        Some(m) => m,
        None => "None"@,
    };
    let a = "["@ + e.timestamp + "] ["@ + text::uppercase(e.severity) + "] "@ + e.event_type;
    let b = " module="@ + module + " data="@;
    let c = json::json_text(json::held(e.data));
    let none = Seq::<char>::empty();
    text::a_part_stands_between(all, a, none, b + c);
    assert(all =~= none + a + (b + c));
    text::a_part_stands_between(all, b, a, c);
    assert(all =~= a + b + c);
    text::a_part_stands_between(all, " data="@ + c, a + (" module="@ + module), none);
    assert(all =~= a + (" module="@ + module) + (" data="@ + c) + none);
}

} // verus!
