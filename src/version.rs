use vstd::prelude::*;

verus! {

/// The protocol revision this runtime speaks.
pub const PROTOCOL_VERSION: &'static str = "2025-06-18";

/// The one protocol version accepted during the initialize handshake.
pub open spec fn protocol_version_spec() -> Seq<char> {
    PROTOCOL_VERSION@
}

/// Error data returned when a peer asks for a protocol version that is not supported.
pub struct VersionMismatchError {
    pub supported: Vec<String>,
    pub requested: String,
}

/// Whether `version` names a supported protocol revision.
pub fn is_supported_version(version: &str) -> (r: bool)
    ensures
        r == (version@ == protocol_version_spec()),
{
    crate::text::str_eq(version, PROTOCOL_VERSION)
}

/// The error data for a request that asked for `requested`.
pub fn version_mismatch_error(requested: &str) -> (r: VersionMismatchError)
    ensures
        r.supported@.len() == 1,
        r.supported@[0]@ == protocol_version_spec(),
        r.requested@ == requested@,
{
    let mut supported: Vec<String> = Vec::new();
    supported.push(PROTOCOL_VERSION.to_string());
    VersionMismatchError { supported, requested: requested.to_string() }
}

} // verus!
