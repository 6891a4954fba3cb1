//! The errors that the store reports.
use vstd::prelude::*;

verus! {

#[verifier::external_type_specification]
#[verifier::external_body]
pub struct ExRormError(rorm::Error);

/// Error of the session store: a failure of the backing database, or a stored
/// identifier that does not read back as a session identifier.
#[allow(missing_docs)]
#[derive(Debug)]
pub enum RormStoreError {
    Database(rorm::Error),
    DecodingFailed(base64::DecodeSliceError),
}

} // verus!
