//! Checks on user-supplied text fields.
use vstd::prelude::*;
use crate::error::AppError;
use crate::text::{decimal, decimal_text};
use vstd::string::StringSliceAdditionalSpecFns;

verus! {

/// A whitespace character in the sense of `char::is_whitespace`: the
/// characters with the Unicode White_Space property.
pub open spec fn white_space(c: char) -> bool {
    let u = c as u32;
    ||| 0x9 <= u <= 0xD
    ||| u == 0x20
    ||| u == 0x85
    ||| u == 0xA0
    ||| u == 0x1680
    ||| 0x2000 <= u <= 0x200A
    ||| u == 0x2028
    ||| u == 0x2029
    ||| u == 0x202F
    ||| u == 0x205F
    ||| u == 0x3000
}

/// The text holds nothing but whitespace, so trimming leaves it empty.
pub open spec fn blank(s: Seq<char>) -> bool {
    forall|i: int| 0 <= i < s.len() ==> white_space(s[i])
}

/// Tests whether a character is whitespace.
pub fn is_white_space(c: char) -> (r: bool)
    ensures
        r == white_space(c),
{
    let u = c as u32;
    (0x9 <= u && u <= 0xD) || u == 0x20 || u == 0x85 || u == 0xA0 || u == 0x1680 || (0x2000 <= u
        && u <= 0x200A) || u == 0x2028 || u == 0x2029 || u == 0x202F || u == 0x205F || u == 0x3000
}

/// Fails when `value` holds nothing but whitespace.
pub fn validate_non_empty(value: &str, field_name: &str) -> (r: Result<(), AppError>)
    ensures
        r is Err <==> blank(value@),
        r matches Err(e) ==> e.message@ == field_name@ + " cannot be empty"@,
{
    let n = value.unicode_len();
    let mut i: usize = 0;
    while i < n
        invariant
            i <= n,
            n == value@.len(),
            forall|k: int| 0 <= k < i ==> white_space(value@[k]),
        decreases n - i,
    {
        if !is_white_space(value.get_char(i)) {
            return Ok(());
        }
        i = i + 1;
    }
    let mut m = String::from_str(field_name);
    m.append(" cannot be empty");
    Err(AppError::from_message(m))
}

/// Fails when the length of `value` in bytes is outside `min..=max`.
pub fn validate_length(value: &str, min: usize, max: usize, field_name: &str) -> (r: Result<
    (),
    AppError,
>)
    ensures
        r is Err <==> (value.spec_bytes().len() < min || value.spec_bytes().len() > max),
        r matches Err(e) ==> e.message@ == field_name@ + " must be between "@ + decimal(min as nat)
            + " and "@ + decimal(max as nat) + " characters"@,
{
    let len = value.as_bytes().len();
    if len < min || len > max {
        let mut m = String::from_str(field_name);
        m.append(" must be between ");
        let a = decimal_text(min as u64);
        m.append(a.as_str());
        m.append(" and ");
        let b = decimal_text(max as u64);
        m.append(b.as_str());
        m.append(" characters");
        return Err(AppError::from_message(m));
    }
    Ok(())
}

/// Builds greetings.
pub struct GreetService;

impl GreetService {
    /// A greeting for `name`, which must not be blank and must be 1 to 100
    /// bytes long.
    pub fn create_greeting(name: &str) -> (r: Result<String, AppError>)
        ensures
            blank(name@) ==> (r matches Err(e) && e.message@ == "name"@ + " cannot be empty"@),
            !blank(name@) && (name.spec_bytes().len() < 1 || name.spec_bytes().len()
                > 100) ==> (r matches Err(e) && e.message@ == "name"@ + " must be between "@ + decimal(1)
                + " and "@ + decimal(100) + " characters"@),
            !blank(name@) && 1 <= name.spec_bytes().len() <= 100 ==> (r matches Ok(g)
                && g@ == "Hello, "@ + name@ + "! You've been greeted from Rust!"@),
    {
        match validate_non_empty(name, "name") {
            Err(e) => return Err(e),
            Ok(()) => {},
        }
        match validate_length(name, 1, 100, "name") {
            Err(e) => return Err(e),
            Ok(()) => {},
        }
        let mut g = String::from_str("Hello, ");
        g.append(name);
        g.append("! You've been greeted from Rust!");
        Ok(g)
    }
}

} // verus!
