//! Exit codes of the client.

use vstd::prelude::*;

use crate::ipc::error::{CtlError, CtlErrorView};

verus! {

pub const EXIT_SUCCESS: i32 = 0;

pub const EXIT_FAILURE: i32 = 1;

pub const EXIT_USAGE: i32 = 2;

pub const EXIT_NOT_FOUND: i32 = 3;

pub const EXIT_FRONTEND_UNREACHABLE: i32 = 4;

pub const EXIT_BACKEND_NOT_READY: i32 = 5;

pub const EXIT_CONFLICT: i32 = 6;

pub const EXIT_DEGRADED: i32 = 7;

pub const EXIT_PERMISSION_DENIED: i32 = 13;

pub const EXIT_SERVICE_UNAVAILABLE: i32 = 69;

pub const EXIT_SIGINT: i32 = 130;

pub const EXIT_SIGTERM: i32 = 143;

/// The exit code of a call that failed.
pub open spec fn code_of(e: CtlErrorView) -> i32 {
    match e {
        CtlError::Connect(_) => EXIT_FRONTEND_UNREACHABLE,
        CtlError::Backend { code, .. } => if code == 3 {
            EXIT_NOT_FOUND
        } else if code == 6 {
            EXIT_CONFLICT
        } else {
            EXIT_FAILURE
        },
        _ => EXIT_FAILURE,
    }
}

/// The exit code of a call that failed.
pub fn ctl_error_to_exit_code(e: &CtlError) -> (r: i32)
    ensures
        r == code_of(e@),
{
    match e {
        CtlError::Connect(_) => EXIT_FRONTEND_UNREACHABLE,
        CtlError::Backend { code, message: _ } => match *code {
            3 => EXIT_NOT_FOUND,
            6 => EXIT_CONFLICT,
            _ => EXIT_FAILURE,
        },
        _ => EXIT_FAILURE,
    }
}

/// A call that failed never exits as if it had not.
pub proof fn failures_do_not_exit_with_success(e: CtlErrorView)
    ensures
        code_of(e) != EXIT_SUCCESS,
{
}

/// A frontend that is not there exits with 4, a rule that is not there with 3, one that is there
/// already with 6, and any other failure with 1.
pub proof fn failures_exit_by_kind(e: CtlErrorView)
    ensures
        e is Connect ==> code_of(e) == 4,
        e matches CtlError::Backend { code, .. } ==> code_of(e) == if code == 3 || code == 6 {
            code
        } else {
            1
        },
        e is Request || e is Io || e is Protocol ==> code_of(e) == 1,
{
}

} // verus!
