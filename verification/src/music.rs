//! Music mode (`set_music`): the controller starts its own TCP server,
//! tells the device to connect back via `set_music`, and then streams commands over
//! that channel. Under music mode the device reports no properties and enforces no
//! command quota.

use vstd::prelude::*;

verus! {

/// Default static TCP port the music server listens on.
pub const DEFAULT_MUSIC_PORT: u16 = 54321;

/// Seconds to wait for the device to connect back.
pub const ACCEPT_TIMEOUT_SECS: u64 = 5;

} // verus!
