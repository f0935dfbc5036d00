//! Mapping reaction events to role grants and revocations.
//!
//! When a user adds or removes a reaction on a registered message, the
//! same lookup decides which role to grant or revoke: the binding in force
//! for that message and emoji, if any.

use vstd::prelude::*;

use crate::settings::{lookup_binding, EmojiKey, EmojiRoleLookup};

verus! {

/// The role to grant (on a reaction added) or revoke (on a reaction
/// removed) for the given message and emoji; nothing when the emoji is not
/// registered on that message.
pub fn role_for_reaction(lookup: &EmojiRoleLookup, message_id: u64, key: &EmojiKey) -> (r: Option<
    u64,
>)
    ensures
        match lookup_binding(lookup@, message_id, key@) {
            Some(b) => r == Some(b.role.role_id),
            None => r is None,
        },
{
    match lookup.get(message_id, key) {
        Some(role) => Some(role.role_id),
        None => None,
    }
}

} // verus!
