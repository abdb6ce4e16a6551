use std::sync::Arc;
use vstd::prelude::*;

use crate::shared::{copy_bytes, share_bytes};

verus! {

/// Encoded sound data shared between its users.
pub struct Sound {
    pub data: Arc<[u8]>,
}

/// Copies the given encoded sound into a sound.
pub fn load_sound(sound: &[u8]) -> (r: Sound)
    ensures
        r.data@ == sound@,
{
    Sound { data: share_bytes(copy_bytes(sound)) }
}

} // verus!
