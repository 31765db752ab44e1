//! The single-insight executor: lookup, the two validation stages, decoding,
//! and the choice of source files; the query itself runs on what the caller
//! read from storage.
use vstd::prelude::*;
use crate::error::AppError;
use crate::insights::{
    InsightKind, QueryPlan, kind_fields, kind_schema_document, plan_account, plan_for,
};
use crate::json::json_object_of;
use crate::params::{check_view, members_of, payload_check};
use crate::model::{InsightRequest, InsightResponse};
use crate::query::{select_source_files, selection_view, source_selection};
use crate::registry::{InsightRegistry, registry_lookup};
use crate::text::string_views;
use crate::validator::{ParameterValidator, schema_check};

verus! {

/// What to do after a request has been looked up and validated.
#[derive(Debug)]
pub enum InsightStep {
    /// Answer with this response; no storage is read.
    Respond(InsightResponse),
    /// Run this query once its source files are read.
    Query(QueryPlan),
}

/// The failure response of a validation stage.
pub fn validation_failure(e: &AppError) -> (r: InsightResponse)
    ensures
        !r.success,
        r.data is None,
        r.columns@.len() == 0,
        r.error matches Some(m) && m@ == "Parameter validation failed: "@ + e.message@,
{
    let mut m = String::from_str("Parameter validation failed: ");
    m.append(e.message.as_str());
    InsightResponse::error(m)
}

/// `step` answers with a failure response carrying `msg`, without rows or
/// columns.
pub open spec fn fails_with(step: InsightStep, msg: Seq<char>) -> bool {
    match step {
        InsightStep::Respond(resp) => !resp.success && resp.data is None && resp.columns@.len() == 0
            && (resp.error matches Some(m) && m@ == msg),
        _ => false,
    }
}

/// Outcome of the first stage for insight `k`: the payload `p` checked
/// against the insight's declared schema document.
pub open spec fn schema_stage(k: InsightKind, p: serde_json::Value) -> Result<(), Seq<char>> {
    match kind_schema_document(k) {
        Err(m) => Err(m),
        Ok(s) => schema_check(s, p),
    }
}

/// Outcome of the second stage: the insight's own check of the payload.
pub open spec fn own_stage(k: InsightKind, p: serde_json::Value) -> Result<(), Seq<char>> {
    payload_check(
        "Invalid parameters: "@,
        kind_fields(k),
        json_object_of(p),
        members_of(kind_fields(k), p),
    )
}

/// The step for insight `k` and payload `p`: the first failing stage gives
/// a failure response; when both pass, the decoded plan is run, or the
/// decoding error is answered.
pub open spec fn insight_step(k: InsightKind, p: serde_json::Value, step: InsightStep) -> bool {
    match schema_stage(k, p) {
        Err(m) => fails_with(step, "Parameter validation failed: "@ + m),
        Ok(()) => match own_stage(k, p) {
            Err(m) => fails_with(step, "Parameter validation failed: "@ + m),
            Ok(()) => match payload_check(
                "Failed to parse parameters: "@,
                kind_fields(k),
                json_object_of(p),
                members_of(kind_fields(k), p),
            ) {
                Err(m) => fails_with(step, m),
                Ok(()) => step matches InsightStep::Query(plan) && plan_for(
                    plan,
                    k,
                    members_of(kind_fields(k), p),
                ),
            },
        },
    }
}

/// Looks up the requested insight and validates its parameters: first
/// against the insight's declared schema, then by the insight's own check.
/// An unknown identifier is an error naming it; a validation failure is a
/// failure response; otherwise the decoded plan of the insight is returned.
/// The second stage and decoding run only when the stages before passed.
pub fn execute_insight(registry: &InsightRegistry, request: &InsightRequest) -> (r: Result<
    InsightStep,
    String,
>)
    ensures
        r is Err <==> registry_lookup(registry@, request.insight_id@) is None,
        r matches Err(m) ==> m@ == "Insight '"@ + request.insight_id@ + "' not found"@,
        registry_lookup(registry@, request.insight_id@) matches Some(k) ==> (r matches Ok(step)
            && insight_step(k, request.parameters, step)),
{
    let kind = match registry.get(request.insight_id.as_str()) {
        Some(k) => k,
        None => {
            let mut m = String::from_str("Insight '");
            m.append(request.insight_id.as_str());
            m.append("' not found");
            return Err(m);
        },
    };
    let schema_check = match kind.schema_document() {
        Ok(schema) => ParameterValidator::validate(&schema, &request.parameters),
        Err(e) => Err(e),
    };
    assert(check_view(schema_check) == schema_stage(kind, request.parameters));
    if let Err(e) = schema_check {
        return Ok(InsightStep::Respond(validation_failure(&e)));
    }
    let own_check = kind.validate_parameters(&request.parameters);
    if let Err(e) = own_check {
        return Ok(InsightStep::Respond(validation_failure(&e)));
    }
    match kind.decode_parameters(&request.parameters) {
        Err(e) => Ok(InsightStep::Respond(InsightResponse::error(e.message))),
        Ok(plan) => Ok(InsightStep::Query(plan)),
    }
}

/// The source files of a plan: see `select_source_files`.
pub fn plan_sources(plan: &QueryPlan, deals_dir: &str, dir_files: &Vec<String>) -> (r: Result<
    Vec<String>,
    AppError,
>)
    ensures
        selection_view(r) == source_selection(
            plan_account(*plan),
            deals_dir@,
            string_views(dir_files@),
        ),
{
    select_source_files(plan.account_number(), deals_dir, dir_files)
}

} // verus!
