//! The status a responder answers a call with, and the `fomoxa_rpc`
//! constructors it comes from.
use vstd::prelude::*;

verus! {

/// The code `fomoxa_rpc::status::CANCELLED`.
pub const CANCELLED: u32 = 1;

/// The code `fomoxa_rpc::status::DEADLINE_EXCEEDED`.
pub const DEADLINE_EXCEEDED: u32 = 2;

/// The code `fomoxa_rpc::status::UNIMPLEMENTED`.
pub const UNIMPLEMENTED: u32 = 3;

/// The code `fomoxa_rpc::status::INVALID_ARGUMENT`.
pub const INVALID_ARGUMENT: u32 = 4;

/// The code `fomoxa_rpc::status::UNAUTHENTICATED`.
pub const UNAUTHENTICATED: u32 = 5;

/// The code `fomoxa_rpc::status::PERMISSION_DENIED`.
pub const PERMISSION_DENIED: u32 = 6;

/// The code `fomoxa_rpc::status::RESOURCE_EXHAUSTED`.
pub const RESOURCE_EXHAUSTED: u32 = 7;

/// The code `fomoxa_rpc::status::FAILED_PRECONDITION`.
pub const FAILED_PRECONDITION: u32 = 8;

/// The code `fomoxa_rpc::status::UNAVAILABLE`.
pub const UNAVAILABLE: u32 = 9;

/// The code `fomoxa_rpc::status::INTERNAL`.
pub const INTERNAL: u32 = 10;

/// A call's failure as its caller sees it: a code and a message.
#[derive(Debug, Clone)]
pub struct CallStatus {
    pub code: u32,
    pub message: String,
}

/// `fomoxa_rpc::Status::invalid_argument` builds a status with
/// the code `INVALID_ARGUMENT` (4) and the given message, and nothing else.
#[verifier::external_body]
pub(crate) fn invalid_argument(message: &str) -> (status: CallStatus)
    ensures
        status.code == INVALID_ARGUMENT,
        status.message@ == message@,
{
    let status = fomoxa_rpc::Status::invalid_argument(message);
    CallStatus { code: status.code, message: status.message }
}

/// `fomoxa_rpc::Status::internal` builds a status with the code
/// `INTERNAL` (10) and the given message, and nothing else.
#[verifier::external_body]
pub(crate) fn internal(message: &str) -> (status: CallStatus)
    ensures
        status.code == INTERNAL,
        status.message@ == message@,
{
    let status = fomoxa_rpc::Status::internal(message);
    CallStatus { code: status.code, message: status.message }
}

/// The name of a status code: the upper-case name of each known code, and
/// `UNKNOWN` for any other.
pub open spec fn status_name_text(code: u32) -> Seq<char> {
    if code == CANCELLED {
        "CANCELLED"@
    } else if code == DEADLINE_EXCEEDED {
        "DEADLINE_EXCEEDED"@
    } else if code == UNIMPLEMENTED {
        "UNIMPLEMENTED"@
    } else if code == INVALID_ARGUMENT {
        "INVALID_ARGUMENT"@
    } else if code == UNAUTHENTICATED {
        "UNAUTHENTICATED"@
    } else if code == PERMISSION_DENIED {
        "PERMISSION_DENIED"@
    } else if code == RESOURCE_EXHAUSTED {
        "RESOURCE_EXHAUSTED"@
    } else if code == FAILED_PRECONDITION {
        "FAILED_PRECONDITION"@
    } else if code == UNAVAILABLE {
        "UNAVAILABLE"@
    } else if code == INTERNAL {
        "INTERNAL"@
    } else {
        "UNKNOWN"@
    }
}

/// `fomoxa_rpc::status::name_of` maps each of the ten codes to its
/// upper-case name and any other code to `UNKNOWN`.
#[verifier::external_body]
pub(crate) fn status_name(code: u32) -> (name: &'static str)
    ensures
        name@ == status_name_text(code),
{
    fomoxa_rpc::status::name_of(code)
}

} // verus!
