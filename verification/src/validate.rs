//! Input validation performed before any store activity.
//!
//! A blank table identifier or an empty item/key map can never be served by
//! the store, so the engine rejects such inputs up front with a validation
//! error and attempts no call at all.

use vstd::prelude::*;
use vstd::string::StrSliceExecFns;
use vstd::string::StringExecFns;
use crate::error::Error;

verus! {

/// Whether `c` carries the Unicode `White_Space` property, the set of
/// characters that trimming a string removes.
pub open spec fn is_whitespace_char(c: char) -> bool {
    ||| c == ' '
    ||| ('\u{0009}' <= c && c <= '\u{000D}')
    ||| c == '\u{0085}'
    ||| c == '\u{00A0}'
    ||| c == '\u{1680}'
    ||| ('\u{2000}' <= c && c <= '\u{200A}')
    ||| c == '\u{2028}'
    ||| c == '\u{2029}'
    ||| c == '\u{202F}'
    ||| c == '\u{205F}'
    ||| c == '\u{3000}'
}

/// A string is blank when every character in it is whitespace; the empty
/// string is blank.
pub open spec fn is_blank(s: Seq<char>) -> bool {
    forall|i: int| 0 <= i < s.len() ==> is_whitespace_char(#[trigger] s[i])
}

/// Whether `c` carries the Unicode `White_Space` property.
pub fn is_whitespace(c: char) -> (r: bool)
    ensures
        r == is_whitespace_char(c),
{
    c == ' ' || ('\u{0009}' <= c && c <= '\u{000D}') || c == '\u{0085}' || c == '\u{00A0}'
        || c == '\u{1680}' || ('\u{2000}' <= c && c <= '\u{200A}') || c == '\u{2028}'
        || c == '\u{2029}' || c == '\u{202F}' || c == '\u{205F}' || c == '\u{3000}'
}

/// Whether the string trims to nothing.
pub fn str_is_blank(s: &str) -> (r: bool)
    ensures
        r == is_blank(s@),
{
    let len = s.unicode_len();
    let mut i: usize = 0;
    while i < len
        invariant
            len == s@.len(),
            i <= len,
            forall|j: int| 0 <= j < i ==> is_whitespace_char(#[trigger] s@[j]),
        decreases len - i,
    {
        if !is_whitespace(s.get_char(i)) {
            return false;
        }
        i = i + 1;
    }
    true
}

/// Validates that a table name is not blank. Returns a validation error,
/// before any store activity, exactly when the name trims to nothing.
pub fn validate_table_name(table_name: &str) -> (r: Result<(), Error>)
    ensures
        r is Ok <==> !is_blank(table_name@),
        r matches Err(e) ==> e matches Error::Validation(s) && s@ == "Table name cannot be empty"@,
{
    if str_is_blank(table_name) {
        Err(Error::Validation("Table name cannot be empty".to_owned()))
    } else {
        Ok(())
    }
}

/// Validates that an item or key map has at least one entry; the caller
/// hands in how many entries the map holds and what the field is called in
/// the error. Rejects an empty map with a validation error, before any
/// store activity.
pub fn validate_not_empty(entry_count: usize, field_name: &str) -> (r: Result<(), Error>)
    ensures
        r is Ok <==> entry_count > 0,
        r matches Err(e) ==> e matches Error::Validation(s) && s@ == field_name@
            + " cannot be empty"@,
{
    if entry_count == 0 {
        Err(Error::Validation(field_name.to_owned().concat(" cannot be empty")))
    } else {
        Ok(())
    }
}

/// Validates that an expression string is not blank (an update expression,
/// a key condition expression). The caller names the field for the error.
pub fn validate_expression(expression: &str, field_name: &str) -> (r: Result<(), Error>)
    ensures
        r is Ok <==> !is_blank(expression@),
        r matches Err(e) ==> e matches Error::Validation(s) && s@ == field_name@
            + " cannot be empty"@,
{
    if str_is_blank(expression) {
        Err(Error::Validation(field_name.to_owned().concat(" cannot be empty")))
    } else {
        Ok(())
    }
}

} // verus!
