use vstd::prelude::*;

verus! {

use vstd::string::StringExecFns;

use crate::state::{list_contains, State};

/// The message refused callers get: names the action they are not allowed.
pub open spec fn auth_err_chars(action: Seq<char>) -> Seq<char> {
    "Caller is not authorized to "@ + action + " events"@
}

/// Builds the refusal message for one action.
pub fn err_message(action: &str) -> (r: String)
    ensures
        r@ == auth_err_chars(action@),
{
    let mut s = String::from_str("Caller is not authorized to ");
    s.append(action);
    s.append(" events");
    proof {
        assert(s@ =~= auth_err_chars(action@));
    }
    s
}

/// Admits the call exactly when the caller stands on the push allow-list;
/// refused callers get the refusal message, before any side effect.
pub fn caller_can_push_events(state: &State, caller: &Vec<u8>) -> (r: Result<(), String>)
    ensures
        r is Ok <==> list_contains(state.push_list(), caller@),
        r matches Err(e) ==> e@ == auth_err_chars("push"@),
{
    if state.can_caller_push_events(caller) {
        Ok(())
    } else {
        Err(err_message("push"))
    }
}

/// Admits the call exactly when the caller stands on the read allow-list.
pub fn caller_can_read_events(state: &State, caller: &Vec<u8>) -> (r: Result<(), String>)
    ensures
        r is Ok <==> list_contains(state.read_list(), caller@),
        r matches Err(e) ==> e@ == auth_err_chars("read"@),
{
    if state.can_caller_read_events(caller) {
        Ok(())
    } else {
        Err(err_message("read"))
    }
}

/// Admits the call exactly when the caller stands on the remove allow-list.
pub fn caller_can_remove_events(state: &State, caller: &Vec<u8>) -> (r: Result<(), String>)
    ensures
        r is Ok <==> list_contains(state.remove_list(), caller@),
        r matches Err(e) ==> e@ == auth_err_chars("remove"@),
{
    if state.can_caller_remove_events(caller) {
        Ok(())
    } else {
        Err(err_message("remove"))
    }
}

} // verus!
