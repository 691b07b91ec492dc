//! What the channel plan of a region takes over from the network.

use crate::mac::join::JoinAccept;
use vstd::prelude::*;

verus! {

/// Channel-plan state. The plan itself draws channel frequencies or masks from the accept.
#[derive(Debug, Clone, Copy, PartialEq, Eq)]
pub struct Configuration {
    /// The join accept that was last handed to the plan.
    pub join_accept: Option<JoinAccept>,
}

impl Configuration {
    /// Hands a decrypted join accept to the plan.
    pub fn process_join_accept(&mut self, accept: &JoinAccept)
        ensures
            final(self).join_accept == Some(*accept),
    {
        self.join_accept = Some(*accept);
    }
}

} // verus!
