//! Validation of a parameter payload against a JSON Schema, collecting every
//! violated constraint into one report.
use vstd::prelude::*;
use crate::error::AppError;
use crate::json::{
    Violation, compile_draft7, draft7_compiled, draft7_violations, schema_violations,
    violation_views,
};
use crate::params::check_view;
use crate::text::{decimal, decimal_text, join_lines, joined_lines, string_views};

verus! {

/// Report line of one violation, annotated with its path unless the payload
/// itself is at fault.
pub open spec fn violation_line(v: (Seq<char>, Seq<char>)) -> Seq<char> {
    if v.0.len() == 0 {
        v.1
    } else {
        "Parameter '"@ + v.0 + "': "@ + v.1
    }
}

/// Outcome for a list of violations: success when there is none, the line of
/// the only one, or a count followed by one line per violation.
pub open spec fn violations_report(vs: Seq<(Seq<char>, Seq<char>)>) -> Result<(), Seq<char>> {
    if vs.len() == 0 {
        Ok(())
    } else if vs.len() == 1 {
        Err(violation_line(vs[0]))
    } else {
        Err(
            "Validation failed with "@ + decimal(vs.len()) + " errors:\n"@ + joined_lines(
                vs.map_values(|v: (Seq<char>, Seq<char>)| violation_line(v)),
            ),
        )
    }
}

fn violation_line_text(v: &Violation) -> (r: String)
    ensures
        r@ == violation_line(v@),
{
    if v.instance_path.as_str().unicode_len() == 0 {
        v.message.clone()
    } else {
        let mut s = String::from_str("Parameter '");
        s.append(v.instance_path.as_str());
        s.append("': ");
        s.append(v.message.as_str());
        s
    }
}

/// Outcome of validating a payload against a schema document under draft 7.
pub open spec fn schema_check(schema: serde_json::Value, params: serde_json::Value) -> Result<
    (),
    Seq<char>,
> {
    match draft7_compiled(schema) {
        Err(t) => Err("Invalid JSON Schema: "@ + t),
        Ok(c) => violations_report(draft7_violations(c, params)),
    }
}

/// Validates parameter payloads against a JSON Schema.
pub struct ParameterValidator;

impl ParameterValidator {
    /// Turns the violations found in a payload into the outcome of
    /// validation.
    pub fn report(violations: &Vec<Violation>) -> (r: Result<(), AppError>)
        ensures
            check_view(r) == violations_report(violation_views(violations@)),
    {
        let ghost vv = violation_views(violations@);
        let n = violations.len();
        if n == 0 {
            return Ok(());
        }
        if n == 1 {
            return Err(AppError::from_message(violation_line_text(&violations[0])));
        }
        let mut lines: Vec<String> = Vec::new();
        let mut i: usize = 0;
        while i < n
            invariant
                i <= n,
                n == violations.len(),
                vv == violation_views(violations@),
                string_views(lines@) =~= vv.subrange(0, i as int).map_values(
                    |v: (Seq<char>, Seq<char>)| violation_line(v),
                ),
            decreases n - i,
        {
            let line = violation_line_text(&violations[i]);
            let ghost before = lines@;
            lines.push(line);
            proof {
                assert(string_views(lines@) =~= string_views(before).push(line@));
                assert(vv.subrange(0, i + 1).map_values(|v: (Seq<char>, Seq<char>)| violation_line(v))
                    =~= vv.subrange(0, i as int).map_values(|v: (Seq<char>, Seq<char>)| violation_line(v)).push(
                    violation_line(vv[i as int]),
                ));
            }
            i = i + 1;
        }
        assert(vv.subrange(0, n as int) =~= vv);
        let mut m = String::from_str("Validation failed with ");
        let count = decimal_text(n as u64);
        m.append(count.as_str());
        m.append(" errors:\n");
        let body = join_lines(&lines);
        m.append(body.as_str());
        Err(AppError::from_message(m))
    }

    /// Validates a payload against a JSON Schema under draft 7. A schema that
    /// does not compile is reported as such; otherwise the outcome is the
    /// report of every violation that jsonschema finds.
    pub fn validate(schema: &serde_json::Value, params: &serde_json::Value) -> (r: Result<
        (),
        AppError,
    >)
        ensures
            check_view(r) == schema_check(*schema, *params),
    {
        match compile_draft7(schema) {
            Err(e) => {
                let mut m = String::from_str("Invalid JSON Schema: ");
                m.append(e.as_str());
                let r: Result<(), AppError> = Err(AppError::from_message(m));
                assert(check_view(r) == Err::<(), Seq<char>>("Invalid JSON Schema: "@ + e@));
                r
            },
            Ok(compiled) => {
                let violations = schema_violations(&compiled, params);
                Self::report(&violations)
            },
        }
    }
}

} // verus!
