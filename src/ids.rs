//! Session identifiers: an `i128`, written as text the way `tower_sessions`
//! writes its `Id`, and read back from such text.
use vstd::prelude::*;

verus! {

#[verifier::external_type_specification]
#[verifier::external_body]
pub struct ExDecodeSliceError(base64::DecodeSliceError);

/// The text that `tower_sessions` writes for the identifier `v`.
pub uninterp spec fn id_text(v: i128) -> Seq<char>;

/// The identifier that `tower_sessions` reads from the text `s`, if any.
pub uninterp spec fn id_parse(s: Seq<char>) -> Option<i128>;

/// Relies on `Display for tower_sessions::session::Id`: the identifier's
/// little-endian bytes in URL-safe base64 without padding, which
/// `FromStr for Id` decodes back to the same identifier.
#[verifier::external_body]
pub fn id_to_text(v: i128) -> (r: String)
    ensures
        r@ == id_text(v),
        id_parse(r@) == Some(v),
{
    tower_sessions::session::Id(v).to_string()
}

/// Relies on `FromStr for tower_sessions::session::Id`: base64 decoding of
/// exactly sixteen bytes, or the decoder's error.
#[verifier::external_body]
pub fn id_from_text(s: &str) -> (r: Result<i128, base64::DecodeSliceError>)
    ensures
        match r {
            Ok(v) => id_parse(s@) == Some(v),
            Err(_) => id_parse(s@).is_none(),
        },
{
    <tower_sessions::session::Id as std::str::FromStr>::from_str(s).map(|id| id.0)
}

/// Relies on `Default for tower_sessions::session::Id`: a random identifier.
#[verifier::external_body]
pub fn fresh_id() -> (r: i128) {
    tower_sessions::session::Id::default().0
}

/// Relies on `time::OffsetDateTime::now_utc`: the current instant, as
/// nanoseconds since the Unix epoch.
#[verifier::external_body]
pub fn now_nanos() -> (r: i128) {
    tower_sessions::cookie::time::OffsetDateTime::now_utc().unix_timestamp_nanos()
}

} // verus!
