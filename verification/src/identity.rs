//! Owner and group display: the name registered for a numeric id, or the id
//! itself in decimal where no name can be shown.

use vstd::prelude::*;
use crate::text::{decimal_string, decimal_text, lemma_decimal_not_empty};

verus! {

/// Looks a user id up with `users::get_user_by_uid` and takes the user's
/// name with `User::name`; none where the system's user database has no such
/// user or the name is not valid Unicode. The answer depends on that database,
/// so nothing is claimed of it.
#[verifier::external_body]
pub(crate) fn lookup_user_name(uid: u32) -> (name: Option<String>) {
    match users::get_user_by_uid(uid) {
        Some(user) => user.name().to_str().map(|name| name.to_string()),
        None => None,
    }
}

/// Looks a group id up with `users::get_group_by_gid` and takes the group's
/// name with `Group::name`; none where the system's group database has no
/// such group or the name is not valid Unicode. The answer depends on that
/// database, so nothing is claimed of it.
#[verifier::external_body]
pub(crate) fn lookup_group_name(gid: u32) -> (name: Option<String>) {
    match users::get_group_by_gid(gid) {
        Some(group) => group.name().to_str().map(|name| name.to_string()),
        None => None,
    }
}

/// What is shown for `id` when the lookup gave `registered`: the name where
/// there is one and it is not empty, else the id in decimal.
pub open spec fn identity_text(id: u32, registered: Option<Seq<char>>) -> Seq<char> {
    match registered {
        Some(name) => if name.len() > 0 {
            name
        } else {
            decimal_text(id as nat)
        },
        None => decimal_text(id as nat),
    }
}

/// The view of a looked-up name.
pub open spec fn name_text(registered: Option<String>) -> Option<Seq<char>> {
    match registered {
        Some(name) => Some(name@),
        None => None,
    }
}

/// Settles what is shown for `id` from the outcome of the lookup. A missing
/// name is no error: the number stands in for it.
pub fn resolve_identity(id: u32, registered: Option<String>) -> (shown: String)
    ensures
        shown@ == identity_text(id, name_text(registered)),
        shown@.len() > 0,
{
    proof {
        lemma_decimal_not_empty(id as nat);
    }
    match registered {
        Some(name) => {
            if name.as_str().unicode_len() > 0 {
                name
            } else {
                decimal_string(id as u64)
            }
        },
        None => decimal_string(id as u64),
    }
}

/// Whether `shown` can stand for `id`: it is what some outcome of the lookup
/// gives. It is never empty.
pub open spec fn is_identity_of(shown: Seq<char>, id: u32) -> bool {
    exists|registered: Option<Seq<char>>| shown == #[trigger] identity_text(id, registered)
}

/// What is shown for the owner `uid`: the user's name, or the number.
pub fn owner_display(uid: u32) -> (shown: String)
    ensures
        is_identity_of(shown@, uid),
        shown@.len() > 0,
{
    let registered = lookup_user_name(uid);
    resolve_identity(uid, registered)
}

/// What is shown for the group `gid`: the group's name, or the number.
pub fn group_display(gid: u32) -> (shown: String)
    ensures
        is_identity_of(shown@, gid),
        shown@.len() > 0,
{
    let registered = lookup_group_name(gid);
    resolve_identity(gid, registered)
}

} // verus!
