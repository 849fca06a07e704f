//! What the verdict of a schema validator means for a call.
use vstd::prelude::*;
use vstd::string::*;
use crate::clock::Timestamp;
use crate::error_code::ErrorCode;
use crate::errors::{ErrorView, ModuleError};
use crate::executor::redact::has_schema;
use crate::json::{empty_object, Json, JsonValue, put};
use crate::text::{cat2, cat3};
use crate::errors;
use crate::executor::redact;
use crate::json;

verus! {

/// One failure that a validator found: where, and what.
#[derive(Debug)]
pub struct SchemaFailure {
    pub field: String,
    pub message: String,
}

/// What a validator says of a value.
#[derive(Debug)]
pub enum SchemaVerdict {
    /// The schema does not compile.
    BadSchema(String),
    /// The value fits.
    Valid,
    /// The value does not fit.
    Invalid(Vec<SchemaFailure>),
}

/// A failure as a JSON object.
pub open spec fn failure_json(field: Seq<char>, message: Seq<char>) -> Json {
    Json::Obj(map!["field"@ => Json::Str(field), "message"@ => Json::Str(message)])
}

/// Failures as JSON objects.
pub open spec fn failures_json(s: Seq<SchemaFailure>) -> Seq<Json> {
    Seq::new(s.len(), |i: int| failure_json(s[i].field@, s[i].message@))
}

/// The error for a schema that does not compile.
pub open spec fn bad_schema_error(direction: Seq<char>, why: Seq<char>, timestamp: Timestamp) -> ErrorView {
    let message = direction + " schema is invalid: "@ + why;
    ErrorView {
        ai_guidance: Some(
            "The "@ + direction
                + " schema itself could not be compiled. Fix the module's schema declaration; the call arguments are not the cause."@,
        ),
        ..errors::detailed_error(
            ErrorCode::SchemaParseError,
            message,
            map!["errors"@ => Json::Arr(seq![failure_json(Seq::empty(), message)])],
            timestamp,
        )
    }
}

/// The error for a value that does not fit.
pub open spec fn invalid_value_error(direction: Seq<char>, failures: Seq<SchemaFailure>, timestamp: Timestamp) -> ErrorView {
    ErrorView {
        ai_guidance: Some(
            direction
                + " failed schema validation. Check the 'errors' field in details for specific validation failures."@,
        ),
        ..errors::detailed_error(
            ErrorCode::SchemaValidationError,
            direction + " validation failed"@,
            map!["errors"@ => Json::Arr(failures_json(failures))],
            timestamp,
        )
    }
}

fn failure_object(field: &str, message: &str) -> (r: JsonValue)
    ensures
        r@ == failure_json(field@, message@),
{
    broadcast use crate::json::lemma_value_view;
    let mut m = empty_object();
    put(&mut m, "field", JsonValue::str(field));
    put(&mut m, "message", JsonValue::str(message));
    JsonValue::Object(m)
}

/// Whether a value passes, given what the validator says of it. A schema that
/// says nothing lets every value pass.
pub fn validate_against_schema(schema: &JsonValue, direction: &str, verdict: &SchemaVerdict) -> (r: Result<(), ModuleError>)
    ensures
        r is Ok <==> !redact::says_something(schema@) || *verdict == SchemaVerdict::Valid,
        r matches Err(e) ==> match *verdict {
            SchemaVerdict::BadSchema(why) => e@ == bad_schema_error(direction@, why@, e@.timestamp),
            SchemaVerdict::Valid => false,
            SchemaVerdict::Invalid(failures) => e@ == invalid_value_error(direction@, failures@, e@.timestamp),
        },
{
    broadcast use crate::json::lemma_value_view;
    if !has_schema(schema) {
        return Ok(());
    }
    match verdict {
        SchemaVerdict::Valid => Ok(()),
        SchemaVerdict::BadSchema(why) => {
            let message = cat3(direction, " schema is invalid: ", why.as_str());
            let mut list: Vec<JsonValue> = Vec::new();
            list.push(failure_object("", message.as_str()));
            proof {
                reveal_strlit("");
                assert(""@ =~= Seq::<char>::empty());
                assert(json::values_view(list@) =~= seq![failure_json(Seq::empty(), message@)]);
            }
            let mut details = empty_object();
            put(&mut details, "errors", JsonValue::Array(list));
            let guidance = cat3(
                "The ",
                direction,
                " schema itself could not be compiled. Fix the module's schema declaration; the call arguments are not the cause.",
            );
            Err(
                ModuleError::new(ErrorCode::SchemaParseError, message.as_str()).with_details(details).with_ai_guidance(
                    guidance.as_str(),
                ),
            )
        },
        SchemaVerdict::Invalid(failures) => {
            let mut list: Vec<JsonValue> = Vec::new();
            let mut i: usize = 0;
            while i < failures.len()
                invariant
                    i <= failures.len(),
                    list@.len() == i,
                    forall|j: int| 0 <= j < i ==> (#[trigger] list@[j])@ == failure_json(
                        failures@[j].field@,
                        failures@[j].message@,
                    ),
                decreases failures.len() - i,
            {
                list.push(failure_object(failures[i].field.as_str(), failures[i].message.as_str()));
                i = i + 1;
            }
            assert(json::values_view(list@) =~= failures_json(failures@));
            let mut details = empty_object();
            put(&mut details, "errors", JsonValue::Array(list));
            let message = cat2(direction, " validation failed");
            let guidance = cat2(
                direction,
                " failed schema validation. Check the 'errors' field in details for specific validation failures.",
            );
            Err(
                ModuleError::new(ErrorCode::SchemaValidationError, message.as_str()).with_details(
                    details,
                ).with_ai_guidance(guidance.as_str()),
            )
        },
    }
}

/// The error for an invalid value lists every failure, in order, with its field
/// and what is wrong with it.
pub proof fn every_failure_is_listed(direction: Seq<char>, failures: Seq<SchemaFailure>, timestamp: Timestamp)
    ensures
        ({
            let e = invalid_value_error(direction, failures, timestamp);
            &&& e.code == ErrorCode::SchemaValidationError
            &&& e.message == direction + " validation failed"@
            &&& e.details.contains_key("errors"@)
            &&& e.details["errors"@] matches Json::Arr(s) && s.len() == failures.len() && forall|i: int|
                0 <= i < s.len() ==> json::json_get(#[trigger] s[i], "field"@) == Some(Json::Str(failures[i].field@))
                    && json::json_get(s[i], "message"@) == Some(Json::Str(failures[i].message@))
        }),
{
    reveal_strlit("field");
    reveal_strlit("message");
    assert("field"@.len() == 5 && "message"@.len() == 7);
}

/// The error for a schema that is itself wrong says so, and blames no value.
pub proof fn a_bad_schema_is_told_apart(direction: Seq<char>, why: Seq<char>, timestamp: Timestamp)
    ensures
        ({
            let e = bad_schema_error(direction, why, timestamp);
            &&& e.code == ErrorCode::SchemaParseError
            &&& e.message == direction + " schema is invalid: "@ + why
            &&& e.details.contains_key("errors"@)
            &&& e.details["errors"@] matches Json::Arr(s) && s.len() == 1 && json::json_get(s[0], "message"@) == Some(
                Json::Str(e.message),
            )
        }),
{
    reveal_strlit("field");
    reveal_strlit("message");
    assert("field"@.len() == 5 && "message"@.len() == 7);
}

} // verus!
