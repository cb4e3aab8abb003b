//! The error type shared by the game modules.
use vstd::prelude::*;

verus! {

/// Why an operation of the game was refused.
#[derive(Debug, Clone, PartialEq, Eq)]
pub enum MudError {
    RuntimeError(String),
    NotFound(String),
    InvalidOperation(String),
    PermissionDenied,
    ObjectNotFound(String),
}

/// The message carried by an error.
pub open spec fn err_msg(e: MudError) -> Seq<char> {
    match e {
        MudError::RuntimeError(m) => m@,
        MudError::NotFound(m) => m@,
        MudError::InvalidOperation(m) => m@,
        MudError::PermissionDenied => "permission denied"@,
        MudError::ObjectNotFound(m) => m@,
    }
}

/// A runtime error with the given message.
pub fn runtime_error(m: &str) -> (r: MudError)
    ensures
        r matches MudError::RuntimeError(s) && s@ == m@,
{
    MudError::RuntimeError(String::from_str(m))
}

/// A not-found error with the given message.
pub fn not_found(m: &str) -> (r: MudError)
    ensures
        r matches MudError::NotFound(s) && s@ == m@,
{
    MudError::NotFound(String::from_str(m))
}

/// An invalid-operation error with the given message.
pub fn invalid_operation(m: &str) -> (r: MudError)
    ensures
        r matches MudError::InvalidOperation(s) && s@ == m@,
{
    MudError::InvalidOperation(String::from_str(m))
}

} // verus!
