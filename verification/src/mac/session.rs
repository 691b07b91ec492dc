//! The session that a join establishes.

use crate::mac::join::{self, JoinAccept};
use crate::types::{AppKey, AppSKey, DevAddr, NwkSKey};
use vstd::prelude::*;

verus! {

/// Keys and address of a joined device.
#[derive(Debug, Clone, PartialEq, Eq)]
pub struct Session {
    pub nwkskey: NwkSKey,
    pub appskey: AppSKey,
    pub devaddr: DevAddr,
}

impl Session {
    /// Whether this is the session that the encrypted join accept `phy` establishes for a
    /// device that asked with `dev_nonce`.
    pub open spec fn established_by(self, phy: Seq<u8>, dev_nonce: u16, key: Seq<u8>) -> bool {
        &&& self.nwkskey.0@ == join::nwk_session_key(phy, dev_nonce, key)
        &&& self.appskey.0@ == join::app_session_key(phy, dev_nonce, key)
        &&& self.devaddr.0@ == join::join_accept_plaintext(phy, key).subrange(7, 11)
    }

    /// Derives the session of a join accept, given encrypted as it was received and as its
    /// decrypted fields.
    pub fn derive_new(phy: &[u8], accept: &JoinAccept, dev_nonce: u16, key: &AppKey) -> (s: Session)
        requires
            join::is_join_accept(phy@),
            accept.fields_of(join::join_accept_plaintext(phy@, key.0@)),
        ensures
            s.established_by(phy@, dev_nonce, key.0@),
            s.nwkskey.0@ == join::nwk_session_key(phy@, dev_nonce, key.0@),
            s.appskey.0@ == join::app_session_key(phy@, dev_nonce, key.0@),
            s.devaddr == accept.dev_addr,
    {
        Session {
            nwkskey: join::derive_nwkskey(phy, dev_nonce, key),
            appskey: join::derive_appskey(phy, dev_nonce, key),
            devaddr: accept.dev_addr,
        }
    }
}

} // verus!
