//! Over-the-air activation.

use crate::bytes;
use crate::mac::join::{self, JoinAccept, JOIN_REQUEST_LEN};
use crate::mac::laws;
use crate::mac::session::Session;
use crate::mac::{self, del_to_delay_ms, Response};
use crate::nvm::PersistentIdentity;
use crate::radio::RadioBuffer;
use crate::region;
use crate::types::{AppEui, AppKey, DevEui};
use vstd::prelude::*;
use vstd::slice::slice_to_vec;

verus! {

/// What a device presents itself to a network with.
#[derive(Debug, Clone)]
pub struct NetworkCredentials {
    deveui: DevEui,
    appeui: AppEui,
    appkey: AppKey,
}

impl NetworkCredentials {
    /// The device identifier.
    pub closed spec fn device(self) -> DevEui {
        self.deveui
    }

    /// The application identifier.
    pub closed spec fn application(self) -> AppEui {
        self.appeui
    }

    /// The root key.
    pub closed spec fn key(self) -> AppKey {
        self.appkey
    }

    /// Credentials of a device.
    pub fn new(appeui: AppEui, deveui: DevEui, appkey: AppKey) -> (c: Self)
        ensures
            c.application() == appeui,
            c.device() == deveui,
            c.key() == appkey,
    {
        NetworkCredentials { deveui, appeui, appkey }
    }

    /// The application identifier.
    pub fn appeui(&self) -> (r: &AppEui)
        ensures
            *r == self.application(),
    {
        &self.appeui
    }

    /// The device identifier.
    pub fn deveui(&self) -> (r: &DevEui)
        ensures
            *r == self.device(),
    {
        &self.deveui
    }

    /// The root key.
    pub fn appkey(&self) -> (r: &AppKey)
        ensures
            *r == self.key(),
    {
        &self.appkey
    }
}

/// A join attempt: the credentials, and the nonce of the last join request.
pub struct Otaa {
    dev_nonce: u16,
    network_credentials: NetworkCredentials,
}

/// The number of the join after the one numbered `epoch`; numbers wrap around.
pub open spec fn next_epoch(epoch: u32) -> u32 {
    if epoch == u32::MAX {
        0
    } else {
        (epoch + 1) as u32
    }
}

/// Whether a join accept with nonce `join_nonce` is a replay of the one accepted last.
///
/// A join accept's integrity code does not cover the nonce of the device, so a repeated one
/// validates in a later join window while key derivation silently diverges from the network.
/// LoRaWAN 1.0.4 guarantees only that the server does not repeat a nonce: a fresh one is never
/// equal to the last but may well be lower, so equality is the strongest test that cannot
/// reject a compliant server.
pub open spec fn is_replay(identity: PersistentIdentity, join_nonce: u32) -> bool {
    identity.last_join_nonce == Some(join_nonce)
}

/// The identity after a join accept with nonce `join_nonce` was accepted.
pub open spec fn after_join(identity: PersistentIdentity, join_nonce: u32) -> PersistentIdentity {
    PersistentIdentity {
        dev_nonce: identity.dev_nonce,
        last_join_nonce: Some(join_nonce),
        join_epoch: next_epoch(identity.join_epoch),
    }
}

/// Takes over what a decrypted join accept sets, whether or not it proves to be genuine:
/// hands it to the channel plan and sets the delay of the first receive window.
pub fn apply_join_accept(
    region: &mut region::Configuration,
    configuration: &mut mac::Configuration,
    plain: &[u8],
) -> (accept: JoinAccept)
    requires
        plain@.len() == join::JOIN_ACCEPT_LEN || plain@.len() == join::JOIN_ACCEPT_WITH_CFLIST_LEN,
    ensures
        accept.fields_of(plain@),
        final(region).join_accept == Some(accept),
        final(configuration).rx1_delay == mac::delay_ms(plain@[12] % 16),
        final(configuration).rx1_delay == (if plain@[12] % 16 == 0 {
            1000
        } else {
            1000 * (plain@[12] % 16)
        }),
{
    let accept = JoinAccept::read(plain);
    region.process_join_accept(&accept);
    configuration.rx1_delay = del_to_delay_ms(accept.rx_delay);
    accept
}

/// Decides whether a join accept with nonce `join_nonce` establishes a session, and records it
/// if so. One that is not genuine never does. Without an identity there is nothing to record
/// and no replay is recognized.
pub fn admit_join(
    identity: Option<&mut PersistentIdentity>,
    genuine: bool,
    join_nonce: u32,
) -> (admitted: bool)
    ensures
        match identity {
            Some(id) => {
                &&& admitted == (genuine && !is_replay(*id, join_nonce))
                &&& *final(id) == (if admitted {
                    after_join(*id, join_nonce)
                } else {
                    *id
                })
            },
            None => admitted == genuine,
        },
        admitted ==> genuine,
        identity matches Some(id) ==> admitted == (genuine && id.last_join_nonce != Some(
            join_nonce,
        )),
        identity matches Some(id) ==> admitted ==> final(id).last_join_nonce == Some(join_nonce)
            && final(id).join_epoch as int == (id.join_epoch + 1) % 0x1_0000_0000
            && final(id).dev_nonce == id.dev_nonce,
{
    if !genuine {
        return false;
    }
    if let Some(identity) = identity {
        if let Some(last) = identity.last_join_nonce {
            if last == join_nonce {
                return false;
            }
        }
        identity.last_join_nonce = Some(join_nonce);
        identity.join_epoch = identity.join_epoch.wrapping_add(1);
    }
    true
}

/// Whether the received frame `phy` establishes a session: it is a genuine join accept, and no
/// replay as far as an identity tells.
pub open spec fn establishes(
    phy: Seq<u8>,
    key: AppKey,
    identity: Option<PersistentIdentity>,
) -> bool {
    &&& join::is_join_accept(phy)
    &&& join::mic_valid(phy, key.0@)
    &&& identity matches Some(id) ==> !is_replay(id, received_nonce(phy, key))
}

/// The nonce that the encrypted join accept `phy` carries.
pub open spec fn received_nonce(phy: Seq<u8>, key: AppKey) -> u32 {
    join::nonce_of(join::join_accept_plaintext(phy, key.0@))
}

impl Otaa {
    /// The nonce of the last join request, 0 before the first.
    pub closed spec fn nonce(self) -> u16 {
        self.dev_nonce
    }

    /// The credentials that the device joins with.
    pub closed spec fn credentials(self) -> NetworkCredentials {
        self.network_credentials
    }

    /// A device that has not asked to join yet.
    pub fn new(network_credentials: NetworkCredentials) -> (otaa: Self)
        ensures
            otaa.nonce() == 0,
            otaa.credentials() == network_credentials,
    {
        Otaa { dev_nonce: 0, network_credentials }
    }

    /// Prepare a join request to be sent. This populates the radio buffer with the request to
    /// be sent, and returns the nonce that it carries.
    ///
    /// `dev_nonce` selects the LoRaWAN 1.0.4 monotonic counter value when persistence is
    /// available; `None` falls back to the 1.0.2 random draw, the low half of `random`.
    pub fn prepare_buffer<const N: usize>(
        &mut self,
        random: u32,
        dev_nonce: Option<u16>,
        buf: &mut RadioBuffer<N>,
    ) -> (sent: u16)
        requires
            JOIN_REQUEST_LEN <= N,
            old(buf).wf(),
        ensures
            sent == (match dev_nonce {
                Some(n) => n as int,
                None => random as int % 65536,
            }),
            final(self).nonce() == sent,
            final(self).credentials() == old(self).credentials(),
            final(buf).wf(),
            ({
                let c = old(self).credentials();
                final(buf).frame() == join::join_request(
                    c.application().0@,
                    c.device().0@,
                    sent,
                    c.key().0@,
                )
            }),
            ({
                let c = old(self).credentials();
                let phy = final(buf).frame();
                &&& phy.len() == 23
                &&& phy[0] == 0
                &&& phy.subrange(1, 9) == c.application().0@
                &&& phy.subrange(9, 17) == c.device().0@
                &&& 256 * phy[17] + phy[18] == sent
                &&& phy.skip(19) == join::join_mic(phy.take(19), c.key().0@)
            }),
            final(buf).pos() == JOIN_REQUEST_LEN,
            final(buf).packet() == bytes::overwrite(
                old(buf).packet(),
                0,
                final(buf).frame(),
            ),
    {
        self.dev_nonce = match dev_nonce {
            Some(n) => n,
            None => (random % 65536) as u16,
        };
        let c = &self.network_credentials;
        let phy = join::build_join_request(&c.appeui, &c.deveui, self.dev_nonce, &c.appkey);
        buf.fill(&phy);
        proof {
            assert(phy@ =~= phy@.take(19) + phy@.skip(19));
            laws::lemma_join_request_format(c.appeui.0@, c.deveui.0@, self.dev_nonce, c.appkey.0@);
        }
        self.dev_nonce
    }

    /// Handle a frame that arrived in a receive window. A join accept is decrypted in place
    /// and handed to the channel plan, and sets the delay of the first receive window. If it is
    /// genuine and no replay, it is recorded in `identity` and the session that it establishes
    /// is returned.
    pub fn handle_rx<const N: usize>(
        &mut self,
        region: &mut region::Configuration,
        configuration: &mut mac::Configuration,
        identity: Option<&mut PersistentIdentity>,
        rx: &mut RadioBuffer<N>,
    ) -> (session: Option<Session>)
        requires
            old(rx).wf(),
        ensures
            *final(self) == *old(self),
            final(rx).wf(),
            ({
                let phy = old(rx).frame();
                let key = old(self).credentials().key();
                let plain = join::join_accept_plaintext(phy, key.0@);
                let join_nonce = received_nonce(phy, key);
                &&& session is Some == establishes(
                    phy,
                    key,
                    match identity {
                        Some(id) => Some(*id),
                        None => None,
                    },
                )
                &&& session matches Some(s) ==> s.established_by(
                    phy,
                    old(self).nonce(),
                    key.0@,
                )
                &&& session is Some ==> plain.skip(plain.len() - 4) == join::join_mic(
                    plain.take(plain.len() - 4),
                    key.0@,
                )
                &&& session matches Some(s) ==> s.nwkskey.0@ == join::nwk_session_key(
                    phy,
                    old(self).nonce(),
                    key.0@,
                ) && s.appskey.0@ == join::app_session_key(phy, old(self).nonce(), key.0@)
                    && s.devaddr.0@ == plain.subrange(7, 11)
                &&& join_nonce == plain[1] + 256 * plain[2] + 65536 * plain[3]
                &&& identity matches Some(id) ==> session is Some ==> id.last_join_nonce != Some(
                    join_nonce,
                )
                &&& identity matches Some(id) ==> *final(id) == (if session is Some {
                    after_join(*id, join_nonce)
                } else {
                    *id
                })
                &&& if join::is_join_accept(phy) {
                    &&& final(region).join_accept matches Some(accept) && accept.fields_of(plain)
                    &&& final(configuration).rx1_delay == mac::delay_ms(plain[12] % 16)
                    &&& final(rx).pos() == old(rx).pos()
                    &&& final(rx).packet() == bytes::overwrite(old(rx).packet(), 0, plain)
                } else {
                    &&& *final(region) == *old(region)
                    &&& *final(configuration) == *old(configuration)
                    &&& *final(rx) == *old(rx)
                }
            }),
    {
        if !join::parses_as_join_accept(rx.as_ref_for_read()) {
            return None;
        }
        let key = self.network_credentials.appkey;
        let phy = slice_to_vec(rx.as_ref_for_read());
        let plain = join::decrypt_join_accept(&phy, &key);
        rx.fill(&plain);
        let accept = apply_join_accept(region, configuration, &plain);
        let genuine = join::validate_join_accept_mic(&phy, &key);
        if !admit_join(identity, genuine, accept.join_nonce) {
            return None;
        }
        Some(Session::derive_new(&phy, &accept, self.dev_nonce, &key))
    }

    /// The second receive window closed without a join accept.
    pub fn rx2_complete(&mut self) -> (response: Response)
        ensures
            response == Response::NoJoinAccept,
            *final(self) == *old(self),
    {
        Response::NoJoinAccept
    }
}

} // verus!
