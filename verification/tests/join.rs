use lorawan_nvm::mac::join::JoinAccept;
use lorawan_nvm::mac::otaa::{admit_join, apply_join_accept, NetworkCredentials, Otaa};
use lorawan_nvm::mac::{del_to_delay_ms, Configuration, Response};
use lorawan_nvm::nvm::PersistentIdentity;
use lorawan_nvm::radio::RadioBuffer;
use lorawan_nvm::region;
use lorawan_nvm::types::{AppEui, AppKey, AppSKey, DevAddr, DevEui, NwkSKey};

const APPEUI: AppEui = AppEui([0x04, 0x03, 0x02, 0x01, 0x04, 0x03, 0x02, 0x01]);
const DEVEUI: DevEui = DevEui([0x05, 0x04, 0x03, 0x02, 0x05, 0x04, 0x03, 0x02]);
const KEY: AppKey = AppKey([
    0x00, 0x11, 0x22, 0x33, 0x44, 0x55, 0x66, 0x77, 0x88, 0x99, 0xaa, 0xbb, 0xcc, 0xdd, 0xee, 0xff,
]);

/// Nonce 0x570bc7, network 01 11 22, address 80 19 03 02, delay 0, encrypted with `KEY`.
const ACCEPT: [u8; 17] = [
    0x20, 0x49, 0x3e, 0xeb, 0x51, 0xfb, 0xa2, 0x11, 0x6f, 0x81, 0x0e, 0xdb, 0x37, 0x42, 0x97, 0x51,
    0x42,
];

/// Nonce 0x010203, delay 3, downlink settings 0x12 and a channel list, encrypted with a key of
/// sixteen ones.
const ACCEPT_WITH_LIST: [u8; 33] = [
    0x20, 0xe4, 0x56, 0x73, 0xb6, 0x3c, 0xb4, 0xb9, 0xce, 0xcb, 0x2a, 0xa8, 0x3f, 0x03, 0x33, 0xe6,
    0x15, 0xd2, 0xac, 0x89, 0xee, 0xa1, 0x65, 0x98, 0x37, 0xc3, 0xaa, 0x6d, 0xf9, 0x68, 0x98, 0x89,
    0xcf,
];

struct Device {
    otaa: Otaa,
    region: region::Configuration,
    mac: Configuration,
    rx: RadioBuffer<64>,
}

impl Device {
    fn new(key: AppKey) -> Device {
        Device {
            otaa: Otaa::new(NetworkCredentials::new(APPEUI, DEVEUI, key)),
            region: region::Configuration { join_accept: None },
            mac: Configuration { rx1_delay: 77 },
            rx: RadioBuffer::new(),
        }
    }

    fn receive(
        &mut self,
        frame: &[u8],
        identity: Option<&mut PersistentIdentity>,
    ) -> Option<lorawan_nvm::mac::session::Session> {
        self.rx.fill(frame);
        self.otaa.handle_rx(&mut self.region, &mut self.mac, identity, &mut self.rx)
    }
}

fn identity(last_join_nonce: Option<u32>) -> PersistentIdentity {
    PersistentIdentity { dev_nonce: 5, last_join_nonce, join_epoch: 8 }
}

/// A join accept with the given nonce and delay, encrypted with `KEY`.
fn accept(nonce: [u8; 3], delay: u8) -> Vec<u8> {
    let mut creator = lorawan::creator::JoinAcceptCreator::new();
    creator
        .set_app_nonce(&nonce)
        .set_net_id(&[1, 2, 3])
        .set_dev_addr(&[4, 5, 6, 7])
        .set_dl_settings(0)
        .set_rx_delay(delay);
    creator.build(&lorawan::keys::AES128(KEY.0)).unwrap()[..17].to_vec()
}

#[test]
fn join_request_bytes() {
    let mut otaa = Otaa::new(NetworkCredentials::new(APPEUI, DEVEUI, AppKey([1; 16])));
    let mut buf: RadioBuffer<40> = RadioBuffer::new();
    buf.fill(&[0xEE; 40]);
    assert_eq!(otaa.prepare_buffer(0xFFFF_FFFF, Some(0x2d10), &mut buf), 0x2d10);
    assert_eq!(
        buf.as_ref_for_read(),
        &[
            0x00, 0x04, 0x03, 0x02, 0x01, 0x04, 0x03, 0x02, 0x01, 0x05, 0x04, 0x03, 0x02, 0x05,
            0x04, 0x03, 0x02, 0x2d, 0x10, 0x6a, 0x99, 0x0e, 0x12,
        ]
    );
}

#[test]
fn random_nonce_is_the_low_half_of_the_draw() {
    let mut otaa = Otaa::new(NetworkCredentials::new(APPEUI, DEVEUI, AppKey([1; 16])));
    let mut buf: RadioBuffer<23> = RadioBuffer::new();
    assert_eq!(otaa.prepare_buffer(0xABCD_2d10, None, &mut buf), 0x2d10);
    assert_eq!(&buf.as_ref_for_read()[17..], &[0x2d, 0x10, 0x6a, 0x99, 0x0e, 0x12]);
}

#[test]
fn requests_with_other_nonces_differ() {
    let mut otaa = Otaa::new(NetworkCredentials::new(APPEUI, DEVEUI, KEY));
    let mut a: RadioBuffer<23> = RadioBuffer::new();
    let mut b: RadioBuffer<23> = RadioBuffer::new();
    otaa.prepare_buffer(0, Some(1), &mut a);
    otaa.prepare_buffer(0, Some(2), &mut b);
    assert_ne!(a.as_ref_for_read(), b.as_ref_for_read());
}

#[test]
fn join_accept_establishes_session() {
    let mut device = Device::new(KEY);
    let mut request: RadioBuffer<32> = RadioBuffer::new();
    device.otaa.prepare_buffer(0, Some(0x2d10), &mut request);
    let mut id = identity(None);
    let session = device.receive(&ACCEPT, Some(&mut id)).unwrap();
    assert_eq!(
        session.nwkskey,
        NwkSKey([
            0x7b, 0xb2, 0x5f, 0x89, 0xe0, 0xd1, 0x37, 0x1e, 0x1f, 0xbf, 0x4d, 0x99, 0x7e, 0x14,
            0x68, 0xa3,
        ])
    );
    assert_eq!(
        session.appskey,
        AppSKey([
            0x14, 0x88, 0x20, 0xdf, 0xb1, 0xe0, 0xc9, 0xd6, 0x28, 0x9c, 0xde, 0x16, 0xc1, 0xaf,
            0x24, 0x9f,
        ])
    );
    assert_eq!(session.devaddr, DevAddr([0x80, 0x19, 0x03, 0x02]));
    assert_eq!(
        id,
        PersistentIdentity { dev_nonce: 5, last_join_nonce: Some(0x570bc7), join_epoch: 9 }
    );
    assert_eq!(device.mac.rx1_delay, 1000);
    assert_eq!(
        device.region.join_accept,
        Some(JoinAccept {
            join_nonce: 0x570bc7,
            net_id: [0x01, 0x11, 0x22],
            dev_addr: DevAddr([0x80, 0x19, 0x03, 0x02]),
            dl_settings: 0,
            rx_delay: 0,
            cf_list: None,
        })
    );
    // Decrypted in place, except for the first byte.
    assert_eq!(
        &device.rx.as_ref_for_read()[..13],
        &[0x20, 0xc7, 0x0b, 0x57, 0x01, 0x11, 0x22, 0x80, 0x19, 0x03, 0x02, 0x00, 0x00]
    );
    assert_eq!(device.rx.as_ref_for_read().len(), 17);
}

#[test]
fn join_accept_with_channel_list() {
    let mut device = Device::new(AppKey([1; 16]));
    assert!(device.receive(&ACCEPT_WITH_LIST, None).is_some());
    assert_eq!(device.mac.rx1_delay, 3000);
    let taken = device.region.join_accept.unwrap();
    assert_eq!(taken.join_nonce, 0x010203);
    assert_eq!(taken.dl_settings, 0x12);
    assert_eq!(
        taken.cf_list,
        Some([
            0x18, 0x4F, 0x84, 0xE8, 0x56, 0x84, 0xB8, 0x5E, 0x84, 0x88, 0x66, 0x84, 0x58, 0x6E,
            0x84, 0x00,
        ])
    );
}

#[test]
fn replayed_accept_is_refused() {
    let mut device = Device::new(KEY);
    let mut id = identity(None);
    assert!(device.receive(&ACCEPT, Some(&mut id)).is_some());
    let after = id;
    // A later join window, with another nonce of the device.
    let mut request: RadioBuffer<32> = RadioBuffer::new();
    device.otaa.prepare_buffer(0, Some(99), &mut request);
    assert!(device.receive(&ACCEPT, Some(&mut id)).is_none());
    assert_eq!(id, after);
    // Without an identity there is no telling.
    assert!(device.receive(&ACCEPT, None).is_some());
}

#[test]
fn other_nonces_are_accepted_lower_ones_too() {
    let mut device = Device::new(KEY);
    let mut id = identity(Some(0x570bc7));
    assert!(device.receive(&accept([0xc6, 0x0b, 0x57], 1), Some(&mut id)).is_some());
    assert_eq!(id.last_join_nonce, Some(0x570bc6));
    assert!(device.receive(&accept([0xc8, 0x0b, 0x57], 1), Some(&mut id)).is_some());
    assert_eq!(id.last_join_nonce, Some(0x570bc8));
    assert_eq!(id.join_epoch, 10);
    assert_eq!(id.dev_nonce, 5);
}

#[test]
fn joined_identity_survives_storing() {
    let mut device = Device::new(KEY);
    let mut id = identity(None);
    assert!(device.receive(&accept([0xFF, 0xFF, 0xFF], 1), Some(&mut id)).is_some());
    assert_eq!(id.last_join_nonce, Some(0xFF_FFFF));
    let mut blob = [0u8; 22];
    id.encode(&mut blob);
    assert_eq!(PersistentIdentity::decode(&blob), Ok(id));
}

#[test]
fn forged_accept_establishes_nothing() {
    // Encrypted with another key. It sets the delay and reaches the channel plan all the same.
    let mut device = Device::new(AppKey([9; 16]));
    let mut id = identity(None);
    assert!(device.receive(&ACCEPT, Some(&mut id)).is_none());
    assert_eq!(id, identity(None));
    assert!(device.region.join_accept.is_some());
    assert_ne!(device.mac.rx1_delay, 77);
}

#[test]
fn other_frames_change_nothing() {
    let frames: [&[u8]; 5] = [
        &[],
        &[0x20],
        &ACCEPT[..16],
        &[
            0x40, 0x04, 0x03, 0x02, 0x01, 0x80, 0x01, 0x00, 0x01, 0xa6, 0x94, 0x64, 0x26, 0x15,
            0xd6, 0xc3, 0xb5, 0x82,
        ],
        &[0x21; 17],
    ];
    for frame in frames {
        let mut device = Device::new(KEY);
        let mut id = identity(Some(3));
        assert!(device.receive(frame, Some(&mut id)).is_none());
        assert_eq!(id, identity(Some(3)));
        assert!(device.region.join_accept.is_none());
        assert_eq!(device.mac.rx1_delay, 77);
        assert_eq!(device.rx.as_ref_for_read(), frame);
    }
}

#[test]
fn message_header_is_read_by_its_bits() {
    // Reserved bits of the header do not matter, the version bits do.
    let mut device = Device::new(KEY);
    for header in 0u8..=255 {
        let mut frame = ACCEPT;
        frame[0] = header;
        device.region.join_accept = None;
        device.receive(&frame, None);
        assert_eq!(device.region.join_accept.is_some(), header / 32 == 1 && header % 4 == 0);
    }
}

#[test]
fn admission() {
    let mut id = identity(Some(40));
    assert!(!admit_join(Some(&mut id), true, 40));
    assert!(!admit_join(Some(&mut id), false, 41));
    assert_eq!(id, identity(Some(40)));
    assert!(admit_join(Some(&mut id), true, 41));
    assert_eq!(
        id,
        PersistentIdentity { dev_nonce: 5, last_join_nonce: Some(41), join_epoch: 9 }
    );
    id.join_epoch = u32::MAX;
    assert!(admit_join(Some(&mut id), true, 1));
    assert_eq!(id.join_epoch, 0);
    assert!(admit_join(None, true, 1));
    assert!(!admit_join(None, false, 1));
}

#[test]
fn application_of_a_plaintext() {
    let mut region = region::Configuration { join_accept: None };
    let mut mac = Configuration { rx1_delay: 0 };
    let plain: Vec<u8> = (0..17).map(|i| 0xF0 + i).collect();
    let taken = apply_join_accept(&mut region, &mut mac, &plain);
    assert_eq!(
        taken,
        JoinAccept {
            join_nonce: 0xF3F2F1,
            net_id: [0xF4, 0xF5, 0xF6],
            dev_addr: DevAddr([0xF7, 0xF8, 0xF9, 0xFA]),
            dl_settings: 0xFB,
            rx_delay: 0x0C,
            cf_list: None,
        }
    );
    assert_eq!(region.join_accept, Some(taken));
    assert_eq!(mac.rx1_delay, 12000);
}

#[test]
fn delays() {
    assert_eq!(del_to_delay_ms(0), 1000);
    assert_eq!(del_to_delay_ms(1), 1000);
    assert_eq!(del_to_delay_ms(2), 2000);
    assert_eq!(del_to_delay_ms(15), 15000);
    assert_eq!(del_to_delay_ms(16), 1000);
}

#[test]
fn credentials_keep_their_parts() {
    let c = NetworkCredentials::new(APPEUI, DEVEUI, KEY);
    assert_eq!(*c.appeui(), APPEUI);
    assert_eq!(*c.deveui(), DEVEUI);
    assert_eq!(*c.appkey(), KEY);
    assert_eq!(Otaa::new(c).rx2_complete(), Response::NoJoinAccept);
}
