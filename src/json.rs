//! The boundary to serde_json and jsonschema: the outside types the library
//! carries, and the calls it makes into those crates.
use vstd::prelude::*;
use crate::deal::Amount;
use crate::params::ScalarView;

verus! {

/// A JSON document, as serde_json holds it. The library carries parameter
/// payloads and compiled schema documents in this form without looking
/// inside except through the calls below.
#[verifier::external_type_specification]
#[verifier::external_body]
pub struct ExJsonValue(serde_json::Value);

/// A JSON Schema compiled by jsonschema.
#[verifier::external_type_specification]
#[verifier::external_body]
pub struct ExJsonSchema(jsonschema::JSONSchema);

/// One violated constraint: where in the payload, and what.
#[derive(Debug, Clone)]
pub struct Violation {
    /// JSON pointer to the offending value; empty for the payload itself.
    pub instance_path: String,
    pub message: String,
}

impl View for Violation {
    type V = (Seq<char>, Seq<char>);

    open spec fn view(&self) -> (Seq<char>, Seq<char>) {
        (self.instance_path@, self.message@)
    }
}

/// Paths and messages of a list of violations.
pub open spec fn violation_views(s: Seq<Violation>) -> Seq<(Seq<char>, Seq<char>)> {
    s.map_values(|v: Violation| v@)
}

/// A member of a JSON object, told apart by JSON kind. `Other` stands for a
/// boolean, an array or an object.
#[derive(Debug, Clone)]
pub enum ParamScalar {
    Absent,
    Null,
    Number(Amount),
    Text(String),
    Other,
}

/// The document that serde_json parses from JSON text, or its error message.
pub uninterp spec fn json_parsed(text: Seq<char>) -> Result<serde_json::Value, Seq<char>>;

/// The draft 7 compilation of a schema document by jsonschema, or its error
/// message.
pub uninterp spec fn draft7_compiled(schema: serde_json::Value) -> Result<
    jsonschema::JSONSchema,
    Seq<char>,
>;

/// The constraints that a payload violates under a compiled schema, as
/// paths and messages, in jsonschema's order.
pub uninterp spec fn draft7_violations(
    compiled: jsonschema::JSONSchema,
    instance: serde_json::Value,
) -> Seq<(Seq<char>, Seq<char>)>;

/// Whether serde_json holds the document as an object.
pub uninterp spec fn json_object_of(v: serde_json::Value) -> bool;

/// The member `key` of a document, as serde_json reports it.
pub uninterp spec fn json_member_of(v: serde_json::Value, key: Seq<char>) -> ScalarView;

/// Relies on serde_json::from_str: parses JSON text into a document, or
/// gives the parser's error message; the outcome depends on the text alone.
#[verifier::external_body]
pub(crate) fn parse_json(text: &str) -> (r: Result<serde_json::Value, String>)
    ensures
        match json_parsed(text@) {
            Ok(v) => r == Ok::<serde_json::Value, String>(v),
            Err(t) => r matches Err(e) && e@ == t,
        },
{
    serde_json::from_str(text).map_err(|e: serde_json::Error| e.to_string())
}

/// Relies on jsonschema's JSONSchema::options().with_draft(Draft7).compile:
/// compiles a schema document under draft 7, or gives the error message.
#[verifier::external_body]
pub(crate) fn compile_draft7(schema: &serde_json::Value) -> (r: Result<jsonschema::JSONSchema, String>)
    ensures
        match draft7_compiled(*schema) {
            Ok(c) => r == Ok::<jsonschema::JSONSchema, String>(c),
            Err(t) => r matches Err(e) && e@ == t,
        },
{
    jsonschema::JSONSchema::options()
        .with_draft(jsonschema::Draft::Draft7)
        .compile(schema)
        .map_err(|e| e.to_string())
}

/// Relies on jsonschema's JSONSchema::validate: every constraint that the
/// payload violates, each with the path of the offending value; empty when
/// the payload is valid.
#[verifier::external_body]
pub(crate) fn schema_violations(
    compiled: &jsonschema::JSONSchema,
    instance: &serde_json::Value,
) -> (r: Vec<Violation>)
    ensures
        violation_views(r@) == draft7_violations(*compiled, *instance),
{
    match compiled.validate(instance) {
        Ok(()) => Vec::new(),
        Err(errors) => errors.map(
            |e| Violation { instance_path: e.instance_path.to_string(), message: e.to_string() },
        ).collect(),
    }
}

/// Relies on serde_json::Value::is_object.
#[verifier::external_body]
pub(crate) fn json_is_object(v: &serde_json::Value) -> (r: bool)
    ensures
        r == json_object_of(*v),
{
    v.is_object()
}

/// Relies on serde_json::Value::get: the member `key` of an object, by JSON
/// kind, a number as its f64 value (Value::as_f64).
#[verifier::external_body]
pub(crate) fn json_member(v: &serde_json::Value, key: &str) -> (r: ParamScalar)
    ensures
        r@ == json_member_of(*v, key@),
{
    match v.get(key) {
        None => ParamScalar::Absent,
        Some(serde_json::Value::Null) => ParamScalar::Null,
        Some(serde_json::Value::String(s)) => ParamScalar::Text(s.clone()),
        Some(n @ serde_json::Value::Number(_)) => match n.as_f64() {
            Some(x) => ParamScalar::Number(Amount { bits: x.to_bits() }),
            None => ParamScalar::Other,
        },
        Some(_) => ParamScalar::Other,
    }
}

} // verus!
