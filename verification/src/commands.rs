use vstd::prelude::*;

pub mod activity_view;

use crate::json::{field_bool, Json};
use crate::text::{opt_view, owned, str_eq};
use crate::types::McpApproval;

verus! {

/// A decision the user may give: once, for the session, or deny.
pub open spec fn is_decision(d: Seq<char>) -> bool {
    d == "allow_once"@ || d == "allow_session"@ || d == "deny"@
}

/// Whether a decision may be recorded for an approval: `allow_session`
/// only when the approval's summary allows it, and only known decisions.
pub open spec fn decision_check(decision: Seq<char>, summary_allows_session: bool) -> Result<(), Seq<char>> {
    if decision == "allow_session"@ && !summary_allows_session {
        Err("This action can only be approved once"@)
    } else if !is_decision(decision) {
        Err("Invalid approval decision"@)
    } else {
        Ok(())
    }
}

/// Checks a decision against the approval it answers.
pub fn check_decision(decision: &str, summary: &Json) -> (r: Result<(), String>)
    ensures
        match r {
            Ok(()) => decision_check(decision@, field_bool(summary@, "allowSession"@) == Some(true)) is Ok,
            Err(e) => decision_check(decision@, field_bool(summary@, "allowSession"@) == Some(true)) == Err::<(), Seq<char>>(e@),
        },
{
    proof {
        reveal_strlit("This action can only be approved once");
        reveal_strlit("Invalid approval decision");
    }
    let allows = match summary.get_bool("allowSession") {
        Some(b) => b,
        None => false,
    };
    if str_eq(decision, "allow_session") && !allows {
        return Err(owned("This action can only be approved once"));
    }
    if !(str_eq(decision, "allow_once") || str_eq(decision, "allow_session") || str_eq(decision, "deny")) {
        return Err(owned("Invalid approval decision"));
    }
    Ok(())
}

/// `list_pending`'s filter: with a workspace, only its approvals; without,
/// all of them.
pub open spec fn pending_in(a: McpApproval, workspace_id: Option<Seq<char>>) -> bool {
    workspace_id is None || opt_view(a.workspace_id) == workspace_id
}

/// Whether, after a decision, approvals of the same workspace are still
/// pending (the workspace window stays reserved while one is).
pub fn still_pending(pending: &Vec<McpApproval>, workspace_id: &Option<String>) -> (r: bool)
    ensures
        r == exists|i: int| 0 <= i < pending@.len() && opt_view(#[trigger] pending@[i].workspace_id) == opt_view(*workspace_id),
{
    let mut i: usize = 0;
    while i < pending.len()
        invariant
            i <= pending.len(),
            forall|j: int| 0 <= j < i ==> opt_view(#[trigger] pending@[j].workspace_id) != opt_view(*workspace_id),
        decreases pending.len() - i,
    {
        let same = match (&pending[i].workspace_id, workspace_id) {
            (Some(a), Some(b)) => str_eq(a.as_str(), b.as_str()),
            (None, None) => true,
            _ => false,
        };
        if same {
            return true;
        }
        i += 1;
    }
    false
}

} // verus!
