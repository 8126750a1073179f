//! The name of the working directory of a run.

use vstd::prelude::*;
use vstd::string::*;
use crate::text::append_text;

verus! {

/// Whether `c` can stand in the text of a UUID: a lower-case hexadecimal digit
/// or a hyphen.
pub open spec fn is_uuid_char(c: char) -> bool {
    c == '-' || ('0' as u32 <= c as u32 <= '9' as u32) || ('a' as u32 <= c as u32 <= 'f' as u32)
}

/// Whether `text` has the shape of a UUID in its usual form: 36 characters,
/// each a lower-case hexadecimal digit or a hyphen.
pub open spec fn is_uuid_text(text: Seq<char>) -> bool {
    text.len() == 36 && forall|i: int| 0 <= i < text.len() ==> is_uuid_char(#[trigger] text[i])
}

/// The path of the working directory with the given token in its name.
pub open spec fn temp_dir_path(token: Seq<char>) -> Seq<char> {
    "/tmp/script-runner-"@ + token
}

/// A fresh random UUID as text.
///
/// Calls `uuid::Uuid::new_v4` and formats the result with its `Display` impl,
/// which writes the hyphenated lower-case form. Which UUID comes back is up to
/// the system's random numbers, so the contract states only the shape of the
/// text. `new_v4` aborts where the system offers no random bytes.
#[verifier::external_body]
fn new_uuid_text() -> (text: String)
    ensures
        is_uuid_text(text@),
{
    uuid::Uuid::new_v4().to_string()
}

/// The path of the working directory with the given token in its name.
pub fn temp_dir_for(token: &str) -> (path: String)
    ensures
        path@ == temp_dir_path(token@),
{
    append_text("/tmp/script-runner-", token)
}

/// Picks the path of a new working directory below `/tmp`, with a fresh UUID
/// in its name. The directory itself is left for the caller to create.
pub fn create_temp_dir() -> (path: String)
    ensures
        exists|token: Seq<char>| is_uuid_text(token) && path@ == #[trigger] temp_dir_path(token),
{
    let token = new_uuid_text();
    temp_dir_for(token.as_str())
}

} // verus!
