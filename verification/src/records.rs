//! Identifiers and timestamps for the records this tool keeps.
use vstd::prelude::*;

verus! {

/// A fresh random identifier.
///
/// Calls `uuid::Uuid::new_v4` and writes it in the hyphenated form that
/// `Uuid`'s `Display` gives (`as_hyphenated`): 36 characters.  The value is
/// random; only its length is claimed.
#[verifier::external_body]
pub(crate) fn new_record_id() -> (r: String)
    ensures
        r@.len() == 36,
{
    uuid::Uuid::new_v4().to_string()
}

/// The current UTC time written as `%Y-%m-%d %H:%M:%S`.
///
/// Calls `chrono::Utc::now` and formats it; the value depends on the clock,
/// so nothing is claimed of it.
#[verifier::external_body]
pub(crate) fn timestamp_now() -> String {
    chrono::Utc::now().format("%Y-%m-%d %H:%M:%S").to_string()
}

} // verus!
