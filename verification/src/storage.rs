//! How stored rows encode domain values.
use vstd::prelude::*;
use crate::models::{chars_eq_str, role_label, Role};
use crate::text::chars_of;

verus! {

/// A stored value that cannot be read back.
pub enum StorageError {
    /// The stored role name is not one of the known ones.
    UnknownRole(String),
}

impl StorageError {
    pub fn message(&self) -> (m: String)
        ensures
            match self {
                StorageError::UnknownRole(r) => m@ == "Unknown message role in storage: "@ + r@,
            },
    {
        match self {
            StorageError::UnknownRole(r) => crate::text::concat(
                "Unknown message role in storage: ",
                r.as_str(),
            ),
        }
    }
}

/// The stored name of a role.
pub fn role_to_db(role: &Role) -> (s: &'static str)
    ensures
        s@ == role_label(*role),
{
    match role {
        Role::System => "system",
        Role::User => "user",
        Role::Assistant => "assistant",
        Role::Tool => "tool",
    }
}

/// The role a stored name stands for.
pub open spec fn role_of_label(s: Seq<char>) -> Option<Role> {
    if s == "system"@ {
        Some(Role::System)
    } else if s == "user"@ {
        Some(Role::User)
    } else if s == "assistant"@ {
        Some(Role::Assistant)
    } else if s == "tool"@ {
        Some(Role::Tool)
    } else {
        None
    }
}

/// Reads a stored role name.
pub fn role_from_db(role: &str) -> (r: Result<Role, StorageError>)
    ensures
        match r {
            Ok(x) => role_of_label(role@) == Some(x),
            Err(StorageError::UnknownRole(v)) => role_of_label(role@) is None && v@ == role@,
        },
{
    let v = chars_of(role);
    if chars_eq_str(v.as_slice(), "system") {
        Ok(Role::System)
    } else if chars_eq_str(v.as_slice(), "user") {
        Ok(Role::User)
    } else if chars_eq_str(v.as_slice(), "assistant") {
        Ok(Role::Assistant)
    } else if chars_eq_str(v.as_slice(), "tool") {
        Ok(Role::Tool)
    } else {
        Err(StorageError::UnknownRole(crate::text::copy_str(role)))
    }
}

/// A stored role reads back as itself, and a name that reads as a role is
/// that role's stored name.
pub proof fn lemma_role_round_trip(r: Role, s: Seq<char>)
    ensures
        role_of_label(role_label(r)) == Some(r),
        role_of_label(s) matches Some(x) ==> role_label(x) == s,
{
    reveal_strlit("system");
    reveal_strlit("user");
    reveal_strlit("assistant");
    reveal_strlit("tool");
    assert("user"@.len() != "system"@.len());
    assert("assistant"@.len() != "system"@.len());
    assert("assistant"@.len() != "user"@.len());
    assert("tool"@.len() != "system"@.len());
    assert("tool"@.len() != "assistant"@.len());
    assert("tool"@[0] != "user"@[0]);
}

} // verus!
