//! Parameter schemas that insights declare, their JSON Schema text, and the
//! structural check and decoding of a parameter payload.
use vstd::prelude::*;
use crate::deal::Amount;
use crate::error::AppError;
use crate::json::{ParamScalar, json_is_object, json_member, json_member_of, json_object_of};

verus! {

/// JSON type of a declared parameter; every declared parameter is optional
/// and may also be null.
#[derive(Clone, Copy, Debug, PartialEq, Eq, Structural)]
pub enum ParamType {
    Text,
    Number,
}

/// One declared parameter. Names and descriptions hold no quote or
/// backslash.
#[derive(Clone, Copy, Debug)]
pub struct ParamField {
    pub name: &'static str,
    pub param_type: ParamType,
    pub description: &'static str,
}

pub struct FieldView {
    pub name: Seq<char>,
    pub param_type: ParamType,
    pub description: Seq<char>,
}

impl View for ParamField {
    type V = FieldView;

    open spec fn view(&self) -> FieldView {
        FieldView { name: self.name@, param_type: self.param_type, description: self.description@ }
    }
}

/// The declared shape of an insight's parameters: a JSON object whose
/// members are the declared fields.
#[derive(Debug, Clone)]
pub struct ParamSchema {
    pub title: &'static str,
    pub fields: Vec<ParamField>,
}

pub open spec fn field_views(s: Seq<ParamField>) -> Seq<FieldView> {
    s.map_values(|f: ParamField| f@)
}

pub open spec fn json_type(t: ParamType) -> Seq<char> {
    match t {
        ParamType::Text => "string"@,
        ParamType::Number => "number"@,
    }
}

/// JSON Schema text of one property.
pub open spec fn field_json(f: FieldView) -> Seq<char> {
    "\""@ + f.name + "\":{\"description\":\""@ + f.description + "\",\"type\":[\""@ + json_type(
        f.param_type,
    ) + "\",\"null\"]}"@
}

pub open spec fn fields_json(fs: Seq<FieldView>) -> Seq<char>
    decreases fs.len(),
{
    if fs.len() == 0 {
        Seq::empty()
    } else if fs.len() == 1 {
        field_json(fs[0])
    } else {
        fields_json(fs.drop_last()) + ","@ + field_json(fs.last())
    }
}

/// JSON Schema (draft 7) text of a parameter schema.
pub open spec fn schema_json(title: Seq<char>, fs: Seq<FieldView>) -> Seq<char> {
    "{\"$schema\":\"http://json-schema.org/draft-07/schema#\",\"title\":\""@ + title
        + "\",\"type\":\"object\",\"properties\":{"@ + fields_json(fs) + "}}"@
}

fn json_type_text(t: ParamType) -> (r: &'static str)
    ensures
        r@ == json_type(t),
{
    match t {
        ParamType::Text => "string",
        ParamType::Number => "number",
    }
}

fn append_field_json(out: &mut String, f: &ParamField)
    ensures
        final(out)@ == old(out)@ + field_json(f@),
{
    let ghost start = out@;
    out.append("\"");
    out.append(f.name);
    out.append("\":{\"description\":\"");
    out.append(f.description);
    out.append("\",\"type\":[\"");
    out.append(json_type_text(f.param_type));
    out.append("\",\"null\"]}");
    assert(out@ =~= start + field_json(f@));
}

impl ParamSchema {
    /// The schema as JSON Schema (draft 7) text.
    pub fn to_json_text(&self) -> (r: String)
        ensures
            r@ == schema_json(self.title@, field_views(self.fields@)),
    {
        let ghost fv = field_views(self.fields@);
        let mut out = String::from_str(
            "{\"$schema\":\"http://json-schema.org/draft-07/schema#\",\"title\":\"",
        );
        out.append(self.title);
        out.append("\",\"type\":\"object\",\"properties\":{");
        let ghost head = out@;
        let mut i: usize = 0;
        assert(fv.subrange(0, 0) =~= Seq::<FieldView>::empty());
        assert(out@ =~= head + fields_json(fv.subrange(0, 0)));
        while i < self.fields.len()
            invariant
                i <= self.fields.len(),
                fv == field_views(self.fields@),
                out@ == head + fields_json(fv.subrange(0, i as int)),
            decreases self.fields.len() - i,
        {
            let ghost before = out@;
            let ghost p = fv.subrange(0, i + 1);
            assert(p.drop_last() =~= fv.subrange(0, i as int));
            assert(p.last() == self.fields@[i as int]@);
            if i > 0 {
                out.append(",");
            }
            append_field_json(&mut out, &self.fields[i]);
            proof {
                if i == 0 {
                    assert(p.len() == 1);
                    assert(out@ =~= head + fields_json(p));
                } else {
                    assert(out@ =~= head + fields_json(p));
                }
            }
            i = i + 1;
        }
        assert(fv.subrange(0, self.fields.len() as int) =~= fv);
        out.append("}}");
        out
    }
}

/// A member of a payload object as the library reasons about it.
pub enum ScalarView {
    Absent,
    Null,
    Number(Amount),
    Text(Seq<char>),
    Other,
}

impl View for ParamScalar {
    type V = ScalarView;

    open spec fn view(&self) -> ScalarView {
        match self {
            ParamScalar::Absent => ScalarView::Absent,
            ParamScalar::Null => ScalarView::Null,
            ParamScalar::Number(a) => ScalarView::Number(*a),
            ParamScalar::Text(s) => ScalarView::Text(s@),
            ParamScalar::Other => ScalarView::Other,
        }
    }
}

pub open spec fn scalar_views(s: Seq<ParamScalar>) -> Seq<ScalarView> {
    s.map_values(|m: ParamScalar| m@)
}

/// A member fits a declared parameter: it is absent, null, or of the
/// declared JSON type.
pub open spec fn member_fits(t: ParamType, m: ScalarView) -> bool {
    match m {
        ScalarView::Absent => true,
        ScalarView::Null => true,
        ScalarView::Number(_) => t == ParamType::Number,
        ScalarView::Text(_) => t == ParamType::Text,
        ScalarView::Other => false,
    }
}

pub open spec fn expected_text(t: ParamType) -> Seq<char> {
    match t {
        ParamType::Text => "a string"@,
        ParamType::Number => "a number"@,
    }
}

/// Message for a member that does not fit its field.
pub open spec fn misfit_message(prefix: Seq<char>, f: FieldView) -> Seq<char> {
    prefix + "field '"@ + f.name + "' expects "@ + expected_text(f.param_type)
}

/// Outcome of checking members against fields: the first field whose member
/// does not fit, if any. `members[i]` is the member named by `fields[i]`.
pub open spec fn members_check(prefix: Seq<char>, fields: Seq<FieldView>, members: Seq<ScalarView>) -> Result<
    (),
    Seq<char>,
>
    decreases fields.len(),
{
    if fields.len() == 0 {
        Ok(())
    } else {
        match members_check(prefix, fields.drop_last(), members) {
            Err(m) => Err(m),
            Ok(()) => if member_fits(fields.last().param_type, members[fields.len() - 1]) {
                Ok(())
            } else {
                Err(misfit_message(prefix, fields.last()))
            },
        }
    }
}

/// Outcome of the structural check of a payload: it must be an object, and
/// each declared member must fit.
pub open spec fn payload_check(
    prefix: Seq<char>,
    fields: Seq<FieldView>,
    is_object: bool,
    members: Seq<ScalarView>,
) -> Result<(), Seq<char>> {
    if !is_object {
        Err(prefix + "expected an object"@)
    } else {
        members_check(prefix, fields, members)
    }
}

pub open spec fn check_view(r: Result<(), AppError>) -> Result<(), Seq<char>> {
    match r {
        Ok(()) => Ok(()),
        Err(e) => Err(e.message@),
    }
}

/// Checks the members of a payload against the declared fields; errors
/// start with `prefix`.
pub fn check_members(prefix: &str, schema: &ParamSchema, is_object: bool, members: &Vec<ParamScalar>) -> (r:
    Result<(), AppError>)
    requires
        members.len() == schema.fields.len(),
    ensures
        check_view(r) == payload_check(
            prefix@,
            field_views(schema.fields@),
            is_object,
            scalar_views(members@),
        ),
{
    let ghost fv = field_views(schema.fields@);
    let ghost mv = scalar_views(members@);
    if !is_object {
        let mut m = String::from_str(prefix);
        m.append("expected an object");
        return Err(AppError::from_message(m));
    }
    let mut i: usize = 0;
    assert(fv.subrange(0, 0) =~= Seq::<FieldView>::empty());
    while i < schema.fields.len()
        invariant
            i <= schema.fields.len(),
            members.len() == schema.fields.len(),
            is_object,
            fv == field_views(schema.fields@),
            mv == scalar_views(members@),
            members_check(prefix@, fv.subrange(0, i as int), mv) == Ok::<(), Seq<char>>(()),
        decreases schema.fields.len() - i,
    {
        let f = &schema.fields[i];
        let ghost p = fv.subrange(0, i + 1);
        assert(p.drop_last() =~= fv.subrange(0, i as int));
        assert(p.last() == f@);
        let fits = match &members[i] {
            ParamScalar::Absent => true,
            ParamScalar::Null => true,
            ParamScalar::Number(_) => f.param_type == ParamType::Number,
            ParamScalar::Text(_) => f.param_type == ParamType::Text,
            ParamScalar::Other => false,
        };
        assert(fits == member_fits(f.param_type, mv[i as int]));
        if !fits {
            let mut m = String::from_str(prefix);
            m.append("field '");
            m.append(f.name);
            m.append("' expects ");
            match f.param_type {
                ParamType::Text => m.append("a string"),
                ParamType::Number => m.append("a number"),
            }
            proof {
                assert(members_check(prefix@, p, mv) == Err::<(), Seq<char>>(misfit_message(prefix@, f@)));
                assert(m@ =~= misfit_message(prefix@, f@));
                lemma_members_check_prefix(prefix@, fv, mv, i + 1);
            }
            let e = AppError::from_message(m);
            let r: Result<(), AppError> = Err(e);
            assert(check_view(r) == Err::<(), Seq<char>>(misfit_message(prefix@, f@)));
            assert(payload_check(prefix@, fv, is_object, mv) == members_check(prefix@, fv, mv));
            return r;
        }
        i = i + 1;
    }
    assert(fv.subrange(0, schema.fields.len() as int) =~= fv);
    Ok(())
}

proof fn lemma_members_check_prefix(
    prefix: Seq<char>,
    fields: Seq<FieldView>,
    members: Seq<ScalarView>,
    n: int,
)
    requires
        0 <= n <= fields.len(),
        members_check(prefix, fields.subrange(0, n), members) is Err,
    ensures
        members_check(prefix, fields, members) == members_check(
            prefix,
            fields.subrange(0, n),
            members,
        ),
    decreases fields.len() - n,
{
    if n < fields.len() {
        let d = fields.drop_last();
        assert(d.subrange(0, n) =~= fields.subrange(0, n));
        lemma_members_check_prefix(prefix, d, members, n);
    } else {
        assert(fields.subrange(0, n) =~= fields);
    }
}

/// The members of a payload named by the declared fields, in field order,
/// as serde_json reports them.
pub open spec fn members_of(fields: Seq<FieldView>, v: serde_json::Value) -> Seq<ScalarView> {
    fields.map_values(|f: FieldView| json_member_of(v, f.name))
}

/// The members of a payload named by the declared fields, in field order.
pub(crate) fn payload_members(schema: &ParamSchema, params: &serde_json::Value) -> (r: Vec<
    ParamScalar,
>)
    ensures
        r.len() == schema.fields.len(),
        scalar_views(r@) == members_of(field_views(schema.fields@), *params),
{
    let ghost fv = field_views(schema.fields@);
    let mut out: Vec<ParamScalar> = Vec::new();
    let mut i: usize = 0;
    while i < schema.fields.len()
        invariant
            i <= schema.fields.len(),
            out.len() == i,
            fv == field_views(schema.fields@),
            scalar_views(out@) =~= members_of(fv.subrange(0, i as int), *params),
        decreases schema.fields.len() - i,
    {
        let ghost before = out@;
        let m = json_member(params, schema.fields[i].name);
        out.push(m);
        assert(scalar_views(out@) =~= scalar_views(before).push(m@));
        assert(fv[i as int] == schema.fields@[i as int]@);
        i = i + 1;
    }
    assert(fv.subrange(0, schema.fields.len() as int) =~= fv);
    out
}

/// Checks that a payload has the declared shape: an object whose declared
/// members are absent, null, or of the declared JSON type.
pub fn check_payload(prefix: &str, schema: &ParamSchema, params: &serde_json::Value) -> (r: Result<
    (),
    AppError,
>)
    ensures
        check_view(r) == payload_check(
            prefix@,
            field_views(schema.fields@),
            json_object_of(*params),
            members_of(field_views(schema.fields@), *params),
        ),
{
    let is_object = json_is_object(params);
    let members = payload_members(schema, params);
    check_members(prefix, schema, is_object, &members)
}

/// The text member of a decoded payload.
pub open spec fn text_member(m: ScalarView) -> Option<Seq<char>> {
    match m {
        ScalarView::Text(s) => Some(s),
        _ => None,
    }
}

/// The number member of a decoded payload.
pub open spec fn number_member(m: ScalarView) -> Option<Amount> {
    match m {
        ScalarView::Number(a) => Some(a),
        _ => None,
    }
}

/// Reads a text member: `None` when absent or null.
pub fn text_value(m: &ParamScalar) -> (r: Option<String>)
    ensures
        match r {
            Some(s) => text_member(m@) == Some(s@),
            None => text_member(m@) is None,
        },
{
    match m {
        ParamScalar::Text(s) => Some(s.clone()),
        _ => None,
    }
}

/// Reads a number member: `None` when absent or null.
pub fn number_value(m: &ParamScalar) -> (r: Option<Amount>)
    ensures
        r == number_member(m@),
{
    match m {
        ParamScalar::Number(a) => Some(*a),
        _ => None,
    }
}

} // verus!
