//! What holds of joins as a whole.

use crate::bytes;
use crate::mac;
use crate::mac::join::{self, JoinAccept};
use crate::mac::otaa;
use crate::mac::session::Session;
use crate::nvm::laws;
use crate::nvm::{DecodeError, PersistentIdentity, JOIN_NONCE_NONE};
use crate::types::AppKey;
use vstd::prelude::*;

verus! {

/// A join accept that was accepted is refused when it comes again, and so is any other frame
/// with the same nonce, whatever nonce the device asked with.
pub proof fn lemma_replay_refused(
    first: Seq<u8>,
    again: Seq<u8>,
    key: AppKey,
    before: PersistentIdentity,
)
    requires
        otaa::establishes(first, key, Some(before)),
        otaa::received_nonce(again, key) == otaa::received_nonce(first, key),
    ensures
        !otaa::establishes(
            again,
            key,
            Some(otaa::after_join(before, otaa::received_nonce(first, key))),
        ),
{
}

/// A genuine join accept is refused for no other reason than that it repeats the nonce of the
/// one accepted last: a lower nonce is as good as a higher one.
pub proof fn lemma_fresh_nonce_accepted(phy: Seq<u8>, key: AppKey, identity: PersistentIdentity)
    requires
        join::is_join_accept(phy),
        join::mic_valid(phy, key.0@),
        identity.last_join_nonce != Some(otaa::received_nonce(phy, key)),
    ensures
        otaa::establishes(phy, key, Some(identity)),
{
}

/// A join moves the identity to another epoch, so that the session of an earlier join is known
/// to be stale, and leaves the counter of join requests alone.
pub proof fn lemma_join_changes_epoch(before: PersistentIdentity, join_nonce: u32)
    ensures
        otaa::after_join(before, join_nonce).join_epoch != before.join_epoch,
        otaa::after_join(before, join_nonce).dev_nonce == before.dev_nonce,
{
}

/// The identity that a join leaves behind survives being stored: a nonce off the air has three
/// bytes and is never the sentinel.
pub proof fn lemma_joined_identity_reads_back(
    before: PersistentIdentity,
    phy: Seq<u8>,
    key: AppKey,
)
    ensures
        ({
            let after = otaa::after_join(before, otaa::received_nonce(phy, key));
            PersistentIdentity::of_blob(after.blob()) == Ok::<PersistentIdentity, DecodeError>(after)
        }),
{
    let after = otaa::after_join(before, otaa::received_nonce(phy, key));
    assert(after.last_join_nonce != Some(JOIN_NONCE_NONE));
    laws::lemma_identity_reads_back(after);
}

/// Join requests with different nonces are different frames.
pub proof fn lemma_join_requests_distinct(
    appeui: Seq<u8>,
    deveui: Seq<u8>,
    key: Seq<u8>,
    a: u16,
    b: u16,
)
    requires
        appeui.len() == 8,
        deveui.len() == 8,
        a != b,
    ensures
        join::join_request(appeui, deveui, a, key) != join::join_request(appeui, deveui, b, key),
{
    let x = join::join_request(appeui, deveui, a, key);
    let y = join::join_request(appeui, deveui, b, key);
    assert(x[17] == (a / 256) as u8 && x[18] == (a % 256) as u8);
    assert(y[17] == (b / 256) as u8 && y[18] == (b % 256) as u8);
}

/// No session without a valid integrity code: with or without an identity, the last four
/// plaintext bytes are the code of those before them under the key of the device.
pub proof fn lemma_session_needs_integrity_code(
    phy: Seq<u8>,
    key: AppKey,
    identity: Option<PersistentIdentity>,
)
    requires
        otaa::establishes(phy, key, identity),
    ensures
        ({
            let plain = join::join_accept_plaintext(phy, key.0@);
            plain.skip(plain.len() - 4) == join::join_mic(plain.take(plain.len() - 4), key.0@)
        }),
{
}

/// Which frames establish a session: those of a join accept's two lengths with its message type
/// and version, that carry a valid integrity code, and whose three nonce bytes are not those
/// recorded last.
pub proof fn lemma_session_exactly_if(
    phy: Seq<u8>,
    key: AppKey,
    identity: Option<PersistentIdentity>,
)
    ensures
        ({
            let plain = join::join_accept_plaintext(phy, key.0@);
            let end = plain.len() - 4;
            otaa::establishes(phy, key, identity) <==> {
                &&& phy.len() == 17 || phy.len() == 33
                &&& phy[0] / 32 == 1
                &&& phy[0] % 4 == 0
                &&& plain.skip(end) == join::join_mic(plain.take(end), key.0@)
                &&& identity matches Some(id) ==> match id.last_join_nonce {
                    Some(last) => last != plain[1] + 256 * plain[2] + 65536 * plain[3],
                    None => true,
                }
            }
        }),
{
}

/// The nonce of a plaintext, written as four bytes, is its nonce bytes and a zero.
pub proof fn lemma_nonce_holds_its_bytes(plain: Seq<u8>)
    ensures
        bytes::u32_le(join::nonce_of(plain)) == seq![plain[1], plain[2], plain[3], 0u8],
        join::nonce_of(plain) == plain[1] + 256 * plain[2] + 65536 * plain[3],
{
    let (a, b, c) = (plain[1] as int, plain[2] as int, plain[3] as int);
    let n = join::nonce_of(plain);
    assert(n as int == a + 256 * (b + 256 * c));
    assert(n / 256 == b + 256 * c);
    assert(n / 65536 == c);
    assert(bytes::u32_le(n) =~= seq![plain[1], plain[2], plain[3], 0u8]);
}

/// Two plaintexts have one nonce exactly if their nonce bytes agree.
pub proof fn lemma_nonce_told_by_bytes(a: Seq<u8>, b: Seq<u8>)
    ensures
        join::nonce_of(a) == join::nonce_of(b) <==> a[1] == b[1] && a[2] == b[2] && a[3] == b[3],
{
    lemma_nonce_holds_its_bytes(a);
    lemma_nonce_holds_its_bytes(b);
    let x = bytes::u32_le(join::nonce_of(a));
    let y = bytes::u32_le(join::nonce_of(b));
    assert(x[0] == a[1] && x[1] == a[2] && x[2] == a[3]);
    assert(y[0] == b[1] && y[1] == b[2] && y[2] == b[3]);
}

/// The nonce that a received frame is judged by, and that is recorded, stands in bytes 1 to 3
/// of its plaintext.
pub proof fn lemma_received_nonce_is_the_plaintext_one(phy: Seq<u8>, key: AppKey)
    ensures
        ({
            let plain = join::join_accept_plaintext(phy, key.0@);
            otaa::received_nonce(phy, key) == plain[1] + 256 * plain[2] + 65536 * plain[3]
        }),
{
}

/// Two genuine join accepts in a row, the first taken: the second is taken exactly if its nonce
/// bytes are others, and then its nonce is on record and two joins are counted.
pub proof fn lemma_two_joins(
    first: Seq<u8>,
    second: Seq<u8>,
    key: AppKey,
    before: PersistentIdentity,
)
    requires
        otaa::establishes(first, key, Some(before)),
        otaa::establishes(second, key, None),
    ensures
        ({
            let p = join::join_accept_plaintext(first, key.0@);
            let q = join::join_accept_plaintext(second, key.0@);
            let once = otaa::after_join(before, otaa::received_nonce(first, key));
            let twice = otaa::after_join(once, otaa::received_nonce(second, key));
            &&& otaa::establishes(second, key, Some(once)) <==> p[1] != q[1] || p[2] != q[2] || p[3]
                != q[3]
            &&& twice.last_join_nonce matches Some(n)
            &&& n == q[1] + 256 * q[2] + 65536 * q[3]
            &&& twice.join_epoch as int == (before.join_epoch + 2) % 0x1_0000_0000
            &&& twice.dev_nonce == before.dev_nonce
        }),
{
    let p = join::join_accept_plaintext(first, key.0@);
    let q = join::join_accept_plaintext(second, key.0@);
    lemma_nonce_told_by_bytes(p, q);
    lemma_nonce_holds_its_bytes(q);
}

/// A recorded join: the nonce is on record, the epoch is the next, modulo two to the power of
/// 32, and nothing else changes.
pub proof fn lemma_join_recorded(before: PersistentIdentity, join_nonce: u32)
    ensures
        ({
            let after = otaa::after_join(before, join_nonce);
            &&& after.last_join_nonce == Some(join_nonce)
            &&& after.join_epoch as int == (before.join_epoch + 1) % 0x1_0000_0000
            &&& after.dev_nonce == before.dev_nonce
        }),
        otaa::is_replay(before, join_nonce) <==> before.last_join_nonce == Some(join_nonce),
{
}

/// Where the fields of a join accept stand in its plaintext.
pub proof fn lemma_accept_fields_placed(accept: JoinAccept, plain: Seq<u8>)
    requires
        accept.fields_of(plain),
    ensures
        accept.join_nonce == plain[1] + 256 * plain[2] + 65536 * plain[3],
        accept.net_id@ == plain.subrange(4, 7),
        accept.dev_addr.0@ == plain.subrange(7, 11),
        accept.dl_settings == plain[11],
        accept.rx_delay == plain[12] % 16,
        plain.len() == 17 || plain.len() == 33,
        match accept.cf_list {
            Some(list) => plain.len() == 33 && list@ == plain.subrange(13, 29),
            None => plain.len() == 17,
        },
{
}

/// A plaintext has one set of fields.
pub proof fn lemma_accept_fields_unique(a: JoinAccept, b: JoinAccept, plain: Seq<u8>)
    requires
        a.fields_of(plain),
        b.fields_of(plain),
    ensures
        a == b,
{
    assert(a.net_id =~= b.net_id);
    assert(a.dev_addr.0 =~= b.dev_addr.0);
    assert(a.dev_addr == b.dev_addr);
    if let (Some(x), Some(y)) = (a.cf_list, b.cf_list) {
        assert(x =~= y);
    }
}

/// Of every join accept, with or without a channel list, the network key of the session is the
/// derived network key, its application key the derived application key, and its address
/// stands in bytes 7 to 10 of the plaintext.
pub proof fn lemma_session_parts(s: Session, phy: Seq<u8>, dev_nonce: u16, key: Seq<u8>)
    requires
        s.established_by(phy, dev_nonce, key),
    ensures
        s.nwkskey.0@ == join::nwk_session_key(phy, dev_nonce, key),
        s.appskey.0@ == join::app_session_key(phy, dev_nonce, key),
        s.devaddr.0@ == join::join_accept_plaintext(phy, key).subrange(7, 11),
{
}

/// A join accept establishes one session per nonce of the device.
pub proof fn lemma_session_unique(
    s: Session,
    t: Session,
    phy: Seq<u8>,
    dev_nonce: u16,
    key: Seq<u8>,
)
    requires
        s.established_by(phy, dev_nonce, key),
        t.established_by(phy, dev_nonce, key),
    ensures
        s == t,
{
    assert(s.nwkskey.0 =~= t.nwkskey.0);
    assert(s.appskey.0 =~= t.appskey.0);
    assert(s.devaddr.0 =~= t.devaddr.0);
    assert(s.nwkskey == t.nwkskey && s.appskey == t.appskey && s.devaddr == t.devaddr);
}

/// Where the parts of a join request stand, whatever its nonce: a zero, the application
/// identifier, the device identifier, the nonce with its high byte first, and the integrity
/// code of these nineteen bytes.
pub proof fn lemma_join_request_format(
    appeui: Seq<u8>,
    deveui: Seq<u8>,
    dev_nonce: u16,
    key: Seq<u8>,
)
    requires
        appeui.len() == 8,
        deveui.len() == 8,
    ensures
        ({
            let phy = join::join_request(appeui, deveui, dev_nonce, key);
            &&& phy.len() >= 19
            &&& phy[0] == 0
            &&& phy.subrange(1, 9) == appeui
            &&& phy.subrange(9, 17) == deveui
            &&& 256 * phy[17] + phy[18] == dev_nonce
            &&& phy.skip(19) == join::join_mic(phy.take(19), key)
        }),
{
    let body = join::join_request_body(appeui, deveui, dev_nonce);
    let phy = join::join_request(appeui, deveui, dev_nonce, key);
    assert(phy.subrange(1, 9) =~= appeui);
    assert(phy.subrange(9, 17) =~= deveui);
    assert(phy.take(19) =~= body);
    assert(phy.skip(19) =~= join::join_mic(body, key));
}

/// A delay field counts seconds. Both 0 and 1 stand for one second, and so does anything that
/// does not fit the four bits of the field.
pub proof fn lemma_delay_counts_seconds(del: u8)
    ensures
        1 <= del <= 15 ==> mac::delay_ms(del) == 1000 * del,
        del == 0 || del > 15 ==> mac::delay_ms(del) == 1000,
{
}

} // verus!
