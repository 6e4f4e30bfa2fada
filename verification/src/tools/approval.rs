use vstd::prelude::*;

use crate::text::str_eq;
use crate::tools::{is_tool_error, ToolError};
use crate::types::McpApproval;

verus! {

/// What a tool call waiting for approval does next.
#[derive(Debug)]
pub enum ApprovalStep {
    /// The user allowed the call; it goes on.
    Granted,
    /// The call ends with this error.
    Fail(ToolError),
    /// The approval ran out: mark it expired, then end the call with a timeout.
    Expire,
    /// No decision yet: wait and look again.
    Wait,
}

/// The decision to take for an approval as it now stands.
pub open spec fn step_kind(current: Option<(Seq<char>, i64)>, now: i64) -> int {
    match current {
        None => 0,
        Some((decision, expires_at)) => if decision == "allow_once"@ || decision == "allow_session"@ {
            1
        } else if decision == "deny"@ {
            2
        } else if decision == "expired"@ || decision == "cancelled"@ {
            3
        } else if now >= expires_at {
            4
        } else {
            5
        },
    }
}

/// The message of an approval that ran out.
pub open spec fn timeout_message() -> Seq<char> {
    "Approval expired before a decision."@
}

/// One look at a pending approval: an allow goes on, a denial and an
/// expiry end the call, a vanished approval ends it as cancelled, an
/// approval past its expiry is expired, and anything else waits.
pub fn approval_step(current: Option<&McpApproval>, now: i64) -> (r: ApprovalStep)
    ensures
        ({
            let k = step_kind(
                match current {
                    Some(a) => Some((a.decision@, a.expires_at)),
                    None => None,
                },
                now,
            );
            &&& k == 0 ==> (r matches ApprovalStep::Fail(e) && is_tool_error(e, "APPROVAL_CANCELLED"@, "Approval no longer exists"@))
            &&& k == 1 ==> r is Granted
            &&& k == 2 ==> (r matches ApprovalStep::Fail(e) && is_tool_error(e, "APPROVAL_DENIED"@, "The user denied this action."@))
            &&& k == 3 ==> (r matches ApprovalStep::Fail(e) && is_tool_error(e, "APPROVAL_TIMEOUT"@, timeout_message()))
            &&& k == 4 ==> r is Expire
            &&& k == 5 ==> r is Wait
        }),
{
    let a = match current {
        Some(a) => a,
        None => return ApprovalStep::Fail(ToolError::new("APPROVAL_CANCELLED", "Approval no longer exists")),
    };
    let d = a.decision.as_str();
    if str_eq(d, "allow_once") || str_eq(d, "allow_session") {
        ApprovalStep::Granted
    } else if str_eq(d, "deny") {
        ApprovalStep::Fail(ToolError::new("APPROVAL_DENIED", "The user denied this action."))
    } else if str_eq(d, "expired") || str_eq(d, "cancelled") {
        ApprovalStep::Fail(timeout_error())
    } else if now >= a.expires_at {
        ApprovalStep::Expire
    } else {
        ApprovalStep::Wait
    }
}

/// The error of an approval that ran out.
pub fn timeout_error() -> (e: ToolError)
    ensures
        is_tool_error(e, "APPROVAL_TIMEOUT"@, timeout_message()),
{
    ToolError::new("APPROVAL_TIMEOUT", "Approval expired before a decision.")
}

} // verus!
