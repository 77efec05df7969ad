//! Notification payload for plain shell sessions.

use vstd::prelude::*;

verus! {

/// Raw bytes a shell session produced, keyed by the session that wrote them.
#[derive(Debug)]
pub struct PtyOutputEvent {
    pub session_id: String,
    pub data: Vec<u8>,
}

} // verus!
