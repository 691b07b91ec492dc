use lorawan_nvm::nvm::{
    decode_blob, encode_blob, region_tag, schema_version, DecodeError, NoNvm,
    NonVolatileStoreSync, NvmRegion, PersistentIdentity, PersistentSession, Unsupported,
    DEFAULT_FCNT_CHECKPOINT_MARGIN, HEADER_LEN, IDENTITY_PAYLOAD_LEN, MAX_BLOB_LEN,
    SESSION_PAYLOAD_LEN,
};
use lorawan_nvm::types::{AppSKey, DevAddr, NwkSKey, DR};

fn identity() -> PersistentIdentity {
    PersistentIdentity { dev_nonce: 0x1234, last_join_nonce: Some(77), join_epoch: 3 }
}

fn session() -> PersistentSession {
    PersistentSession {
        nwkskey: NwkSKey([1; 16]),
        appskey: AppSKey([2; 16]),
        devaddr: DevAddr([1, 2, 3, 4]),
        fcnt_up_checkpoint: 320,
        fcnt_down: 17,
        join_epoch: 3,
        data_rate: DR::_2,
        rx1_delay: 5000,
        rx1_dr_offset: 1,
        rx2_data_rate: Some(DR::_8),
        rx2_frequency: Some(923_300_000),
        tx_power: None,
    }
}

#[test]
fn identity_roundtrip() {
    let mut buf = [0u8; MAX_BLOB_LEN];
    let len = identity().encode(&mut buf);
    assert_eq!(len, HEADER_LEN + IDENTITY_PAYLOAD_LEN);
    assert_eq!(PersistentIdentity::decode(&buf[..len]).unwrap(), identity());
}

#[test]
fn identity_roundtrip_no_join_nonce() {
    let id = PersistentIdentity { dev_nonce: 0, last_join_nonce: None, join_epoch: 0 };
    let mut buf = [0u8; MAX_BLOB_LEN];
    let len = id.encode(&mut buf);
    assert_eq!(PersistentIdentity::decode(&buf[..len]).unwrap(), id);
}

#[test]
fn session_roundtrip() {
    let mut buf = [0u8; MAX_BLOB_LEN];
    let len = session().encode(&mut buf);
    assert_eq!(len, HEADER_LEN + SESSION_PAYLOAD_LEN);
    assert_eq!(PersistentSession::decode(&buf[..len]).unwrap(), session());
}

#[test]
fn corrupt_payload_rejected() {
    let mut buf = [0u8; MAX_BLOB_LEN];
    let len = identity().encode(&mut buf);
    buf[len - 1] ^= 0x01;
    assert_eq!(PersistentIdentity::decode(&buf[..len]), Err(DecodeError::BadCrc));
}

#[test]
fn corrupt_header_rejected() {
    let mut buf = [0u8; MAX_BLOB_LEN];
    let len = identity().encode(&mut buf);
    buf[6] ^= 0x01; // length field
    assert_eq!(PersistentIdentity::decode(&buf[..len]), Err(DecodeError::BadLength));
}

#[test]
fn truncated_rejected() {
    let mut buf = [0u8; MAX_BLOB_LEN];
    let len = identity().encode(&mut buf);
    assert_eq!(PersistentIdentity::decode(&buf[..len - 3]), Err(DecodeError::BadLength));
    assert_eq!(PersistentIdentity::decode(&buf[..3]), Err(DecodeError::BadMagic));
    assert_eq!(PersistentIdentity::decode(&[]), Err(DecodeError::BadMagic));
}

#[test]
fn wrong_magic_rejected() {
    let mut buf = [0u8; MAX_BLOB_LEN];
    let len = identity().encode(&mut buf);
    buf[0] = b'X';
    assert_eq!(PersistentIdentity::decode(&buf[..len]), Err(DecodeError::BadMagic));
}

#[test]
fn swapped_region_rejected() {
    let mut buf = [0u8; MAX_BLOB_LEN];
    let len = session().encode(&mut buf);
    assert_eq!(PersistentIdentity::decode(&buf[..len]), Err(DecodeError::RegionMismatch));
}

#[test]
fn schema_version_mismatch_rejected() {
    let mut buf = [0u8; MAX_BLOB_LEN];
    let len = identity().encode(&mut buf);
    buf[5] += 1;
    assert_eq!(PersistentIdentity::decode(&buf[..len]), Err(DecodeError::SchemaVersion));
}

#[test]
fn crc_covers_header_fields() {
    // Flipping region tag alone must not slip past as the other region's valid blob.
    let mut buf = [0u8; MAX_BLOB_LEN];
    let id = PersistentIdentity { dev_nonce: 1, last_join_nonce: None, join_epoch: 0 };
    let len = id.encode(&mut buf);
    buf[4] = region_tag(NvmRegion::Session);
    assert!(PersistentSession::decode(&buf[..len]).is_err());
    assert_eq!(PersistentSession::decode(&buf[..len]), Err(DecodeError::BadCrc));
}

#[test]
fn identity_blob_bytes() {
    let expected = [
        0x4c, 0x57, 0x4e, 0x56, 0x00, 0x01, 0x0a, 0x00, 0x44, 0x78, 0x19, 0xa5, 0x34, 0x12, 0x4d,
        0x00, 0x00, 0x00, 0x03, 0x00, 0x00, 0x00,
    ];
    let mut buf = [0xEEu8; MAX_BLOB_LEN];
    let len = identity().encode(&mut buf);
    assert_eq!(&buf[..len], &expected[..]);
    assert!(buf[len..].iter().all(|b| *b == 0xEE));
    // A buffer of exactly the blob's size will do.
    let mut exact = [0u8; 22];
    assert_eq!(identity().encode(&mut exact), 22);
    assert_eq!(exact, expected);
}

#[test]
fn session_blob_bytes() {
    let mut expected = vec![
        0x4c, 0x57, 0x4e, 0x56, 0x01, 0x01, 0x3c, 0x00, 0x8c, 0x28, 0x5b, 0xa0,
    ];
    expected.extend_from_slice(&[1; 16]);
    expected.extend_from_slice(&[2; 16]);
    expected.extend_from_slice(&[
        0x01, 0x02, 0x03, 0x04, 0x40, 0x01, 0x00, 0x00, 0x11, 0x00, 0x00, 0x00, 0x03, 0x00, 0x00,
        0x00, 0x02, 0x88, 0x13, 0x00, 0x00, 0x01, 0x08, 0xa0, 0x70, 0x08, 0x37, 0xff,
    ]);
    let mut buf = [0xEEu8; MAX_BLOB_LEN];
    let len = session().encode(&mut buf);
    assert_eq!(&buf[..len], &expected[..]);
    assert!(buf[len..].iter().all(|b| *b == 0xEE));
}

#[test]
fn blob_layer_roundtrip_and_errors() {
    let mut buf = [0u8; 32];
    let n = encode_blob(NvmRegion::Session, b"abc", &mut buf);
    assert_eq!(n, 15);
    assert_eq!(decode_blob(NvmRegion::Session, &buf[..n]), Ok(&b"abc"[..]));
    assert_eq!(
        decode_blob(NvmRegion::Identity, &buf[..n]),
        Err(DecodeError::RegionMismatch)
    );
    // Intact, but no session.
    assert_eq!(PersistentSession::decode(&buf[..n]), Err(DecodeError::BadLength));
    // The empty payload is one too.
    let n = encode_blob(NvmRegion::Identity, b"", &mut buf);
    assert_eq!(n, HEADER_LEN);
    assert_eq!(decode_blob(NvmRegion::Identity, &buf[..n]), Ok(&b""[..]));
    assert_eq!(schema_version(NvmRegion::Identity), 1);
    assert_eq!(schema_version(NvmRegion::Session), 1);
}

#[test]
fn every_damaged_byte_is_noticed() {
    let mut buf = [0u8; MAX_BLOB_LEN];
    let len = session().encode(&mut buf);
    for at in 0..len {
        let mut bad = buf;
        bad[at] ^= 0x40;
        assert!(PersistentSession::decode(&bad[..len]).is_err());
        if at >= 8 {
            assert_eq!(PersistentSession::decode(&bad[..len]), Err(DecodeError::BadCrc));
        }
    }
}

#[test]
fn four_damaged_bytes_are_noticed() {
    let mut buf = [0u8; MAX_BLOB_LEN];
    let len = session().encode(&mut buf);
    for at in HEADER_LEN..len - 3 {
        let mut bad = buf;
        for b in &mut bad[at..at + 4] {
            *b ^= 0xA5;
        }
        assert_eq!(PersistentSession::decode(&bad[..len]), Err(DecodeError::BadCrc));
    }
}

#[test]
fn slots_are_not_mixed_up() {
    let mut buf = [0u8; MAX_BLOB_LEN];
    let len = identity().encode(&mut buf);
    assert_eq!(PersistentSession::decode(&buf[..len]), Err(DecodeError::RegionMismatch));
}

#[test]
fn every_truncation_is_noticed() {
    let mut buf = [0u8; MAX_BLOB_LEN];
    let len = session().encode(&mut buf);
    for cut in 0..len {
        let expected =
            if cut < HEADER_LEN { DecodeError::BadMagic } else { DecodeError::BadLength };
        assert_eq!(PersistentSession::decode(&buf[..cut]), Err(expected));
    }
    assert_eq!(PersistentSession::decode(&buf[..len + 1]), Err(DecodeError::BadLength));
}

#[test]
fn decoded_identity_encodes_to_its_blob() {
    let mut payload = [0u8; 10];
    for (i, b) in payload.iter_mut().enumerate() {
        *b = 0x90 + i as u8;
    }
    let mut blob = [0u8; 22];
    encode_blob(NvmRegion::Identity, &payload, &mut blob);
    let id = PersistentIdentity::decode(&blob).unwrap();
    assert_eq!(id.dev_nonce, 0x9190);
    assert_eq!(id.last_join_nonce, Some(0x9594_9392));
    assert_eq!(id.join_epoch, 0x9998_9796);
    let mut again = [0u8; 22];
    id.encode(&mut again);
    assert_eq!(again, blob);
}

#[test]
fn sentinels_stand_for_absent_values() {
    let id = PersistentIdentity {
        dev_nonce: 9,
        last_join_nonce: Some(0xFFFF_FFFF),
        join_epoch: 1,
    };
    let mut buf = [0u8; MAX_BLOB_LEN];
    let len = id.encode(&mut buf);
    assert_eq!(PersistentIdentity::decode(&buf[..len]).unwrap().last_join_nonce, None);

    let mut s = session();
    s.rx2_data_rate = None;
    s.rx2_frequency = None;
    s.tx_power = Some(14);
    let len = s.encode(&mut buf);
    assert_eq!(PersistentSession::decode(&buf[..len]).unwrap(), s);
    s.rx2_frequency = Some(0);
    s.tx_power = Some(0xFF);
    let len = s.encode(&mut buf);
    let decoded = PersistentSession::decode(&buf[..len]).unwrap();
    assert_eq!(decoded.rx2_frequency, None);
    assert_eq!(decoded.tx_power, None);
}

#[test]
fn data_rates_number_sixteen() {
    for n in 0u8..=255 {
        assert_eq!(DR::from_u8(n).to_u8(), n % 16);
    }
    assert_eq!(DR::from_u8(8), DR::_8);
    assert_eq!(DR::from_u8(15), DR::_15);
}

#[test]
fn fresh_identity() {
    assert_eq!(
        PersistentIdentity::default(),
        PersistentIdentity { dev_nonce: 0, last_join_nonce: None, join_epoch: 0 }
    );
    assert_eq!(DEFAULT_FCNT_CHECKPOINT_MARGIN, 32);
}

#[test]
fn no_store_refuses_everything() {
    let mut store = NoNvm;
    let mut buf = [7u8; 8];
    assert!(!NoNvm::PERSISTENT);
    assert_eq!(store.save(NvmRegion::Identity, &[1, 2]), Err(Unsupported));
    assert_eq!(store.load(NvmRegion::Identity, &mut buf), Err(Unsupported));
    assert_eq!(buf, [7u8; 8]);
}
