//! Watching the support voice channel: who joined it, and whether they are
//! still waiting when the wait is over.

use vstd::prelude::*;

use crate::text::{decimal, decimal_string};

verus! {

/// The support voice channel.
pub const SUPPORT_VOICE_CHANNEL_ID: u64 = 1504922714471792821;

/// The text channel where staff is told that someone waits.
pub const SUPPORT_NOTIFY_CHANNEL_ID: u64 = 1504942144358449242;

/// The staff member who is told.
pub const SUPPORT_STAFF_ID: u64 = 1338291003085422594;

/// How long a member may wait before staff is told, in seconds.
pub const SUPPORT_WAIT_SECS: u64 = 60;

/// A member who joined the support call and is to be checked on.
pub struct SupportWait {
    /// The server the call is in.
    pub guild_id: u64,
    /// The support voice channel.
    pub voice_channel_id: u64,
    /// The member who joined.
    pub user_id: u64,
}

/// Reacts to a change of a member's voice state: when `user_id` was in no
/// voice channel before (`old_channel`) and is now in the support voice
/// channel of a server, the member is to be checked on after the wait.
pub fn handle_voice_join(
    old_channel: Option<u64>,
    new_channel: Option<u64>,
    guild_id: Option<u64>,
    user_id: u64,
) -> (w: Option<SupportWait>)
    ensures
        w is Some <==> (old_channel is None && new_channel == Some(SUPPORT_VOICE_CHANNEL_ID)
            && guild_id is Some),
        w matches Some(w) ==> w.guild_id == guild_id->0 && w.voice_channel_id
            == SUPPORT_VOICE_CHANNEL_ID && w.user_id == user_id,
{
    if old_channel.is_some() {
        return None;
    }
    match new_channel {
        Some(c) => {
            if c != SUPPORT_VOICE_CHANNEL_ID {
                return None;
            }
        },
        None => {
            return None;
        },
    }
    match guild_id {
        Some(g) => Some(SupportWait { guild_id: g, voice_channel_id: SUPPORT_VOICE_CHANNEL_ID, user_id }),
        None => None,
    }
}

/// Whether the member is still in the support call, given the voice channel
/// the server's cache has them in now (`None` when the server, the member's
/// voice state or its channel is unknown).
pub fn still_waiting(wait: &SupportWait, current_channel: Option<u64>) -> (b: bool)
    ensures
        b == (current_channel == Some(wait.voice_channel_id)),
{
    match current_channel {
        Some(c) => c == wait.voice_channel_id,
        None => false,
    }
}

/// The text that tells staff someone waits.
pub fn support_notice() -> (r: String)
    ensures
        r@ == "<@"@ + decimal(SUPPORT_STAFF_ID as nat) + "> someone is waiting in the support call"@,
{
    let mut r = String::new();
    r.append("<@");
    let id = decimal_string(SUPPORT_STAFF_ID);
    r.append(id.as_str());
    r.append("> someone is waiting in the support call");
    r
}

} // verus!
