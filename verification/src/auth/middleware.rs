//! Role-based authorization on an authenticated principal.

use vstd::prelude::*;
use crate::auth::jwt::UserInfo;
use crate::error::Error;
use crate::text::str_eq;

verus! {

/// Whether a role list grants the required roles: an administrator
/// role grants everything; otherwise any one required role suffices.
pub open spec fn spec_has_required_roles(
    user_roles: Seq<String>,
    required_roles: Seq<String>,
) -> bool {
    ||| exists|i: int|
        0 <= i < user_roles.len() && ((#[trigger] user_roles[i])@ == "admin"@ || user_roles[i]@
            == "ADMIN"@)
    ||| exists|i: int, j: int|
        0 <= i < required_roles.len() && 0 <= j < user_roles.len()
            && (#[trigger] required_roles[i])@ == (#[trigger] user_roles[j])@
}

/// Decides whether `user_roles` grants the `required_roles`.
pub fn has_required_roles(user_roles: &Vec<String>, required_roles: &Vec<String>) -> (r: bool)
    ensures
        r == spec_has_required_roles(user_roles@, required_roles@),
{
    let mut i: usize = 0;
    while i < user_roles.len()
        invariant
            0 <= i <= user_roles@.len(),
            forall|j: int|
                0 <= j < i ==> (#[trigger] user_roles@[j])@ != "admin"@ && user_roles@[j]@
                    != "ADMIN"@,
        decreases user_roles@.len() - i,
    {
        if str_eq(user_roles[i].as_str(), "admin") || str_eq(user_roles[i].as_str(), "ADMIN") {
            return true;
        }
        i += 1;
    }
    let mut i: usize = 0;
    while i < required_roles.len()
        invariant
            0 <= i <= required_roles@.len(),
            forall|j: int|
                0 <= j < user_roles@.len() ==> (#[trigger] user_roles@[j])@ != "admin"@
                    && user_roles@[j]@ != "ADMIN"@,
            forall|p: int, q: int|
                0 <= p < i && 0 <= q < user_roles@.len() ==> (#[trigger] required_roles@[p])@ != (
                #[trigger] user_roles@[q])@,
        decreases required_roles@.len() - i,
    {
        let mut j: usize = 0;
        while j < user_roles.len()
            invariant
                0 <= j <= user_roles@.len(),
                i < required_roles@.len(),
                forall|q: int|
                    0 <= q < j ==> (#[trigger] user_roles@[q])@ != required_roles@[i as int]@,
            decreases user_roles@.len() - j,
        {
            if str_eq(required_roles[i].as_str(), user_roles[j].as_str()) {
                return true;
            }
            j += 1;
        }
        i += 1;
    }
    false
}

/// Authorizes an authenticated principal against a route's required
/// roles: no principal is `Unauthorized`; a non-empty requirement the
/// principal does not meet is `InsufficientPermissions`.
pub fn authorize(user: Option<&UserInfo>, required_roles: &Vec<String>) -> (r: Result<(), Error>)
    ensures
        user is None ==> r matches Err(Error::Unauthorized),
        user matches Some(u) ==> {
            if required_roles@.len() > 0 && !spec_has_required_roles(u.roles@, required_roles@) {
                r matches Err(Error::InsufficientPermissions)
            } else {
                r matches Ok(())
            }
        },
{
    match user {
        Some(u) => {
            if required_roles.len() > 0 && !has_required_roles(&u.roles, required_roles) {
                Err(Error::InsufficientPermissions)
            } else {
                Ok(())
            }
        }
        None => Err(Error::Unauthorized),
    }
}

} // verus!
