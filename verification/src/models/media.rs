use vstd::prelude::*;
use crate::text::chars_of;
use crate::media_query::values::eq_chars;

verus! {

/// The columns of the `media` table that a query may order by.
#[verifier::opaque]
pub open spec fn spec_safe_column(name: Seq<char>) -> bool {
    ||| name == "id"@
    ||| name == "uuid"@
    ||| name == "name"@
    ||| name == "created_at"@
    ||| name == "width"@
    ||| name == "height"@
    ||| name == "size"@
    ||| name == "path"@
    ||| name == "liked"@
    ||| name == "media_type"@
    ||| name == "added_at"@
    ||| name == "duration"@
    ||| name == "import_id"@
}

/// Checks that `name` is a column of `media` that may appear in an
/// `ORDER BY`; the error names the column that was not found.
pub fn safe_column(name: &str) -> (r: Result<(), String>)
    ensures
        r is Ok <==> spec_safe_column(name@),
        r matches Err(e) ==> e@ == name@,
{
    reveal(spec_safe_column);
    let cs = chars_of(name);
    if eq_chars(&cs, "id") || eq_chars(&cs, "uuid") || eq_chars(&cs, "name")
        || eq_chars(&cs, "created_at") || eq_chars(&cs, "width") || eq_chars(&cs, "height")
        || eq_chars(&cs, "size") || eq_chars(&cs, "path") || eq_chars(&cs, "liked")
        || eq_chars(&cs, "media_type") || eq_chars(&cs, "added_at") || eq_chars(&cs, "duration")
        || eq_chars(&cs, "import_id") {
        Ok(())
    } else {
        Err(String::from_str(name))
    }
}

} // verus!
