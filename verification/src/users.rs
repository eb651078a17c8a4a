//! A small lookup of a user's display name by numeric id.

use vstd::prelude::*;

verus! {

/// Returns the stored user name for id 1 and nothing for any other id.
pub fn get_username(user_id: u32) -> (r: Option<String>)
    ensures
        r is Some <==> user_id == 1,
        r matches Some(name) ==> name@ == "user name"@,
{
    if user_id == 1 {
        Some("user name".to_owned())
    } else {
        None
    }
}

} // verus!
