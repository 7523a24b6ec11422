use mumble_ping::{
    decode_ping, decode_pong, encode_ping, encode_pong, MalformedError, Ping, Pong, PING_KIND,
    PING_LEN, PONG_LEN,
};

fn wire_config() -> impl bincode::config::Config {
    bincode::config::standard().with_big_endian().with_fixed_int_encoding()
}

fn sample_pong() -> Pong {
    Pong {
        version_packed: 0x0001_0203,
        identifier: 42,
        connected_users: 5,
        max_users: 10,
        bandwidth: 300,
    }
}

const SAMPLE_PONG_WIRE: [u8; 24] = [
    0x00, 0x01, 0x02, 0x03, 0x00, 0x00, 0x00, 0x00, 0x00, 0x00, 0x00, 0x2A, 0x00, 0x00, 0x00,
    0x05, 0x00, 0x00, 0x00, 0x0A, 0x00, 0x00, 0x01, 0x2C,
];

#[test]
fn ping_with_identifier_42_is_twelve_known_bytes() {
    assert_eq!(
        encode_ping(42),
        [0x00, 0x00, 0x00, 0x00, 0x00, 0x00, 0x00, 0x00, 0x00, 0x00, 0x00, 0x2A]
    );
}

#[test]
fn ping_is_always_twelve_bytes() {
    for identifier in [0u64, 1, 0xFF, 0x1_0000_0000, u64::MAX] {
        assert_eq!(encode_ping(identifier).len(), PING_LEN);
        assert_eq!(PING_LEN, 12);
    }
}

#[test]
fn ping_bytes_are_big_endian() {
    assert_eq!(
        encode_ping(0x0102_0304_0506_0708),
        [0, 0, 0, 0, 0x01, 0x02, 0x03, 0x04, 0x05, 0x06, 0x07, 0x08]
    );
    assert_eq!(
        encode_ping(u64::MAX),
        [0, 0, 0, 0, 0xFF, 0xFF, 0xFF, 0xFF, 0xFF, 0xFF, 0xFF, 0xFF]
    );
}

#[test]
fn ping_new_has_kind_zero() {
    let ping = Ping::new(77);
    assert_eq!(ping, Ping { kind: 0, identifier: 77 });
    assert_eq!(PING_KIND, 0);
}

#[test]
fn known_pong_bytes_decode_to_known_fields() {
    let pong = decode_pong(&SAMPLE_PONG_WIRE).unwrap();
    assert_eq!(pong.version_packed, 0x0001_0203);
    assert_eq!(pong.identifier, 42);
    assert_eq!(pong.connected_users, 5);
    assert_eq!(pong.max_users, 10);
    assert_eq!(pong.bandwidth, 300);
    assert_eq!(pong, sample_pong());
}

#[test]
fn known_pong_encodes_to_known_bytes() {
    assert_eq!(encode_pong(&sample_pong()), SAMPLE_PONG_WIRE);
    assert_eq!(PONG_LEN, 24);
}

#[test]
fn pong_fields_land_at_their_offsets() {
    let pong = Pong {
        version_packed: 0xA1A2_A3A4,
        identifier: 0xB1B2_B3B4_B5B6_B7B8,
        connected_users: 0xC1C2_C3C4,
        max_users: 0xD1D2_D3D4,
        bandwidth: 0xE1E2_E3E4,
    };
    let wire = encode_pong(&pong);
    assert_eq!(wire[0..4], [0xA1, 0xA2, 0xA3, 0xA4]);
    assert_eq!(wire[4..12], [0xB1, 0xB2, 0xB3, 0xB4, 0xB5, 0xB6, 0xB7, 0xB8]);
    assert_eq!(wire[12..16], [0xC1, 0xC2, 0xC3, 0xC4]);
    assert_eq!(wire[16..20], [0xD1, 0xD2, 0xD3, 0xD4]);
    assert_eq!(wire[20..24], [0xE1, 0xE2, 0xE3, 0xE4]);
    assert_eq!(decode_pong(&wire), Ok(pong));
}

#[test]
fn pong_round_trips() {
    let pongs = [
        sample_pong(),
        Pong { version_packed: 0, identifier: 0, connected_users: 0, max_users: 0, bandwidth: 0 },
        Pong {
            version_packed: u32::MAX,
            identifier: u64::MAX,
            connected_users: u32::MAX,
            max_users: u32::MAX,
            bandwidth: u32::MAX,
        },
        Pong {
            version_packed: 123,
            identifier: 1_700_000_000,
            connected_users: 2,
            max_users: 12,
            bandwidth: 312,
        },
        Pong {
            version_packed: 0x8000_0000,
            identifier: 0x8000_0000_0000_0001,
            connected_users: 50,
            max_users: 10,
            bandwidth: 0x00FF_00FF,
        },
    ];
    for pong in pongs {
        assert_eq!(decode_pong(&encode_pong(&pong)), Ok(pong));
    }
}

#[test]
fn pong_bytes_round_trip() {
    let mut wire = [0u8; 24];
    for (index, byte) in wire.iter_mut().enumerate() {
        *byte = (index * 11 + 3) as u8;
    }
    let pong = decode_pong(&wire).unwrap();
    assert_eq!(encode_pong(&pong), wire);
}

#[test]
fn ping_round_trips() {
    for identifier in [0u64, 42, 0x0102_0304_0506_0708, u64::MAX] {
        assert_eq!(decode_ping(&encode_ping(identifier)), Ok(Ping::new(identifier)));
    }
}

#[test]
fn decode_ping_keeps_the_kind_it_finds() {
    let wire = [0, 0, 0, 7, 0, 0, 0, 0, 0, 0, 1, 0];
    assert_eq!(decode_ping(&wire), Ok(Ping { kind: 7, identifier: 256 }));
}

#[test]
fn pong_of_any_other_length_is_malformed() {
    let long = [0u8; 64];
    for length in [0usize, 1, 4, 12, 23, 25, 48, 64] {
        assert_eq!(
            decode_pong(&long[..length]),
            Err(MalformedError { expected: 24, found: length })
        );
    }
    assert!(decode_pong(&long[..24]).is_ok());
}

#[test]
fn ping_of_any_other_length_is_malformed() {
    let long = [0u8; 32];
    for length in [0usize, 4, 11, 13, 24] {
        assert_eq!(
            decode_ping(&long[..length]),
            Err(MalformedError { expected: 12, found: length })
        );
    }
    assert!(decode_ping(&long[..12]).is_ok());
}

#[test]
fn a_truncated_pong_is_not_partially_parsed() {
    assert!(decode_pong(&SAMPLE_PONG_WIRE[..23]).is_err());
    assert!(decode_pong(&SAMPLE_PONG_WIRE[1..]).is_err());
    assert!(decode_pong(&[]).is_err());
}

#[test]
fn version_components_are_the_four_packed_bytes() {
    assert_eq!(sample_pong().version_components(), [0, 1, 2, 3]);
    let pong = Pong { version_packed: 0xDEAD_BEEF, ..sample_pong() };
    assert_eq!(pong.version_components(), [0xDE, 0xAD, 0xBE, 0xEF]);
    let pong = Pong { version_packed: 0, ..sample_pong() };
    assert_eq!(pong.version_components(), [0, 0, 0, 0]);
    let pong = Pong { version_packed: u32::MAX, ..sample_pong() };
    assert_eq!(pong.version_components(), [255, 255, 255, 255]);
}

#[test]
fn consistency_compares_connected_with_slots() {
    assert!(sample_pong().is_consistent());
    assert!(Pong { connected_users: 10, max_users: 10, ..sample_pong() }.is_consistent());
    assert!(!Pong { connected_users: 50, max_users: 10, ..sample_pong() }.is_consistent());
    assert!(!Pong { connected_users: 11, max_users: 10, ..sample_pong() }.is_consistent());
    assert!(Pong { connected_users: 0, max_users: 0, ..sample_pong() }.is_consistent());
}

#[test]
fn ping_agrees_with_bincode_on_the_pair() {
    for identifier in [0u64, 42, 1_700_000_000, u64::MAX] {
        let mut slice = [0u8; 12];
        let length =
            bincode::encode_into_slice((0u32, identifier), &mut slice, wire_config()).unwrap();
        assert_eq!(length, 12);
        assert_eq!(encode_ping(identifier), slice);
    }
}

#[test]
fn pong_agrees_with_bincode_on_the_tuple() {
    let wire = encode_pong(&Pong {
        version_packed: 123,
        identifier: 99,
        connected_users: 2,
        max_users: 12,
        bandwidth: 312,
    });
    let ((server_version, ident, connected_users, max_users, bandwidth), read): (
        (u32, u64, u32, u32, u32),
        usize,
    ) = bincode::decode_from_slice(&wire, wire_config()).unwrap();
    assert_eq!(read, 24);
    assert_eq!(
        decode_pong(&wire),
        Ok(Pong {
            version_packed: server_version,
            identifier: ident,
            connected_users,
            max_users,
            bandwidth
        })
    );
    assert_eq!((server_version, ident, connected_users, max_users, bandwidth), (123, 99, 2, 12, 312));
}
