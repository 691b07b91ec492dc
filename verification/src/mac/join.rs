//! Join frames: what the `lorawan` crate computes of them, and the plain fields of a join
//! accept.

use crate::bytes;
use crate::types::{AppEui, AppKey, AppSKey, DevAddr, DevEui, NwkSKey};
use lorawan::creator::JoinRequestCreator;
use lorawan::parser::{
    AsPhyPayloadBytes, DevNonce, EncryptedJoinAcceptPayload, JoinAcceptPayload, PhyPayload,
};
use vstd::prelude::*;

verus! {

/// Length of a join request.
pub const JOIN_REQUEST_LEN: usize = 23;

/// Length of a join accept without a channel list.
pub const JOIN_ACCEPT_LEN: usize = 17;

/// Length of a join accept with a channel list.
pub const JOIN_ACCEPT_WITH_CFLIST_LEN: usize = 33;

/// Length of a message integrity code.
pub const MIC_LEN: usize = 4;

/// Whether a received frame is a join accept: of one of the two lengths, with message type 1
/// in the top three bits of the first byte and major version 0 in the low two.
pub open spec fn is_join_accept(phy: Seq<u8>) -> bool {
    &&& phy.len() == JOIN_ACCEPT_LEN || phy.len() == JOIN_ACCEPT_WITH_CFLIST_LEN
    &&& phy[0] / 32 == 1
    &&& phy[0] % 4 == 0
}

/// The plaintext of the encrypted join accept `phy`, as
/// `lorawan::parser::EncryptedJoinAcceptPayload::decrypt` gives it for an application key.
pub uninterp spec fn join_accept_plaintext(phy: Seq<u8>, key: Seq<u8>) -> Seq<u8>;

/// The message integrity code of `data` under `key`, as the `lorawan` crate's `calculate_mic`
/// gives it for both join frames.
pub uninterp spec fn join_mic(data: Seq<u8>, key: Seq<u8>) -> Seq<u8>;

/// The network session key that `lorawan::parser::DecryptedJoinAcceptPayload::derive_newskey`
/// gives for the encrypted join accept `phy`.
pub uninterp spec fn nwk_session_key(phy: Seq<u8>, dev_nonce: u16, key: Seq<u8>) -> Seq<u8>;

/// The application session key that
/// `lorawan::parser::DecryptedJoinAcceptPayload::derive_appskey` gives for the encrypted join
/// accept `phy`.
pub uninterp spec fn app_session_key(phy: Seq<u8>, dev_nonce: u16, key: Seq<u8>) -> Seq<u8>;

/// The nonce of the join server in the plaintext of a join accept: three bytes, lowest first.
pub open spec fn nonce_of(plain: Seq<u8>) -> u32 {
    (plain[1] + 256 * plain[2] + 65536 * plain[3]) as u32
}

/// Whether the last four bytes of the plaintext of `phy` are its integrity code.
pub open spec fn mic_valid(phy: Seq<u8>, key: Seq<u8>) -> bool {
    let plain = join_accept_plaintext(phy, key);
    let end = plain.len() - MIC_LEN;
    plain.skip(end) == join_mic(plain.take(end), key)
}

/// A join request up to its integrity code: message header, both identifiers, nonce with its
/// high byte first.
pub open spec fn join_request_body(appeui: Seq<u8>, deveui: Seq<u8>, dev_nonce: u16) -> Seq<u8> {
    seq![0u8] + appeui + deveui + seq![(dev_nonce / 256) as u8, (dev_nonce % 256) as u8]
}

/// A join request, signed with `key`.
pub open spec fn join_request(
    appeui: Seq<u8>,
    deveui: Seq<u8>,
    dev_nonce: u16,
    key: Seq<u8>,
) -> Seq<u8> {
    let body = join_request_body(appeui, deveui, dev_nonce);
    body + join_mic(body, key)
}

/// Calls `lorawan::parser::parse` on a copy of `phy` and tells whether it is taken for a join
/// accept.
#[verifier::external_body]
pub(crate) fn parses_as_join_accept(phy: &[u8]) -> (r: bool)
    ensures
        r == is_join_accept(phy@),
{
    matches!(
        lorawan::parser::parse(phy.to_vec()),
        Ok(PhyPayload::JoinAccept(JoinAcceptPayload::Encrypted(_)))
    )
}

/// Calls `lorawan::parser::EncryptedJoinAcceptPayload::decrypt` on a copy of `phy`. The first
/// byte is not encrypted, and the length stays.
#[verifier::external_body]
pub(crate) fn decrypt_join_accept(phy: &[u8], key: &AppKey) -> (plain: Vec<u8>)
    requires
        is_join_accept(phy@),
    ensures
        plain@ == join_accept_plaintext(phy@, key.0@),
        plain@.len() == phy@.len(),
        plain@[0] == phy@[0],
{
    let encrypted = EncryptedJoinAcceptPayload::new(phy.to_vec()).unwrap();
    encrypted.decrypt(&lorawan::keys::AppKey::from(key.0)).as_bytes().to_vec()
}

/// Calls `lorawan::parser::DecryptedJoinAcceptPayload::validate_mic` on the decrypted `phy`. It
/// compares the last four plaintext bytes with the integrity code of those before.
#[verifier::external_body]
pub(crate) fn validate_join_accept_mic(phy: &[u8], key: &AppKey) -> (r: bool)
    requires
        is_join_accept(phy@),
    ensures
        r == mic_valid(phy@, key.0@),
{
    let key = lorawan::keys::AppKey::from(key.0);
    let encrypted = EncryptedJoinAcceptPayload::new(phy.to_vec()).unwrap();
    encrypted.decrypt(&key).validate_mic(&key)
}

/// Calls `lorawan::parser::DecryptedJoinAcceptPayload::derive_newskey` on the decrypted `phy`.
#[verifier::external_body]
pub(crate) fn derive_nwkskey(phy: &[u8], dev_nonce: u16, key: &AppKey) -> (nwkskey: NwkSKey)
    requires
        is_join_accept(phy@),
    ensures
        nwkskey.0@ == nwk_session_key(phy@, dev_nonce, key.0@),
{
    let key = lorawan::keys::AppKey::from(key.0);
    let encrypted = EncryptedJoinAcceptPayload::new(phy.to_vec()).unwrap();
    NwkSKey(encrypted.decrypt(&key).derive_newskey(&DevNonce::from(dev_nonce), &key).inner().0)
}

/// Calls `lorawan::parser::DecryptedJoinAcceptPayload::derive_appskey` on the decrypted `phy`.
#[verifier::external_body]
pub(crate) fn derive_appskey(phy: &[u8], dev_nonce: u16, key: &AppKey) -> (appskey: AppSKey)
    requires
        is_join_accept(phy@),
    ensures
        appskey.0@ == app_session_key(phy@, dev_nonce, key.0@),
{
    let key = lorawan::keys::AppKey::from(key.0);
    let encrypted = EncryptedJoinAcceptPayload::new(phy.to_vec()).unwrap();
    AppSKey(encrypted.decrypt(&key).derive_appskey(&DevNonce::from(dev_nonce), &key).inner().0)
}

/// Builds a join request with `lorawan::creator::JoinRequestCreator`: its setters place the
/// fields, and `build` signs them.
#[verifier::external_body]
pub(crate) fn build_join_request(
    appeui: &AppEui,
    deveui: &DevEui,
    dev_nonce: u16,
    key: &AppKey,
) -> (phy: [u8; 23])
    ensures
        phy@.take(19) == join_request_body(appeui.0@, deveui.0@, dev_nonce),
        phy@.skip(19) == join_mic(
            join_request_body(appeui.0@, deveui.0@, dev_nonce),
            key.0@,
        ),
{
    let mut creator = JoinRequestCreator::new();
    creator
        .set_app_eui(lorawan::keys::AppEui::from(appeui.0))
        .set_dev_eui(lorawan::keys::DevEui::from(deveui.0))
        .set_dev_nonce(DevNonce::from(dev_nonce));
    let mut phy = [0u8; 23];
    phy.copy_from_slice(creator.build(&lorawan::keys::AppKey::from(key.0)));
    phy
}

/// The fields of a decrypted join accept.
#[derive(Debug, Clone, Copy, PartialEq, Eq)]
pub struct JoinAccept {
    /// Nonce of the join server.
    pub join_nonce: u32,
    /// Network identifier, lowest byte first.
    pub net_id: [u8; 3],
    /// Address that the device is given.
    pub dev_addr: DevAddr,
    /// Downlink settings.
    pub dl_settings: u8,
    /// Delay field of the first receive window.
    pub rx_delay: u8,
    /// Channel list, if there is one.
    pub cf_list: Option<[u8; 16]>,
}

impl JoinAccept {
    /// Whether these are the fields of a plaintext.
    pub open spec fn fields_of(self, plain: Seq<u8>) -> bool {
        &&& self.join_nonce == nonce_of(plain)
        &&& self.net_id@ == plain.subrange(4, 7)
        &&& self.dev_addr.0@ == plain.subrange(7, 11)
        &&& self.dl_settings == plain[11]
        &&& self.rx_delay == plain[12] % 16
        &&& match self.cf_list {
            Some(list) => plain.len() == JOIN_ACCEPT_WITH_CFLIST_LEN && list@ == plain.subrange(
                13,
                29,
            ),
            None => plain.len() == JOIN_ACCEPT_LEN,
        }
    }

    /// Reads the fields of a decrypted join accept.
    pub fn read(plain: &[u8]) -> (accept: JoinAccept)
        requires
            plain@.len() == JOIN_ACCEPT_LEN || plain@.len() == JOIN_ACCEPT_WITH_CFLIST_LEN,
        ensures
            accept.fields_of(plain@),
            accept.join_nonce == plain@[1] + 256 * plain@[2] + 65536 * plain@[3],
            accept.dev_addr.0@ == plain@.subrange(7, 11),
    {
        let accept = JoinAccept {
            join_nonce: plain[1] as u32 + 256 * plain[2] as u32 + 65536 * plain[3] as u32,
            net_id: [plain[4], plain[5], plain[6]],
            dev_addr: DevAddr(bytes::array4(plain, 7)),
            dl_settings: plain[11],
            rx_delay: plain[12] % 16,
            cf_list: if plain.len() == JOIN_ACCEPT_LEN {
                None
            } else {
                Some(bytes::array16(plain, 13))
            },
        };
        assert(accept.net_id@ =~= plain@.subrange(4, 7));
        accept
    }
}

} // verus!
