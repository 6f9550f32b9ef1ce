use noray_relay::error::NetError;
use noray_relay::packet_handler::{GameState, GameStatePacket, OID_LENGTH, PACKET_SIZE};

fn sample(oid: &str) -> GameState {
    GameState {
        oid: oid.to_string(),
        frame: 7,
        x_bits: 1.5f32.to_bits(),
        y_bits: (-2.25f32).to_bits(),
        vx_bits: 300.0f32.to_bits(),
        vy_bits: 0.0f32.to_bits(),
        is_jumping: true,
    }
}

const OID: &str = "0123456789abcdef0123456789abcdef";

#[test]
fn packet_size_is_the_sum_of_the_fields() {
    assert_eq!(OID_LENGTH, 32);
    assert_eq!(PACKET_SIZE, 4 + 32 + 4 + 4 + 4 + 4 + 4 + 1);
    assert_eq!(PACKET_SIZE, 57);
}

#[test]
fn encode_lays_out_every_field() {
    let bytes = GameStatePacket(sample(OID)).to_bytes().unwrap();
    assert_eq!(bytes.len(), PACKET_SIZE);
    assert_eq!(&bytes[0..4], &[32, 0, 0, 0]);
    assert_eq!(&bytes[4..36], OID.as_bytes());
    assert_eq!(&bytes[36..40], &[7, 0, 0, 0]);
    assert_eq!(&bytes[40..44], &1.5f32.to_le_bytes());
    assert_eq!(&bytes[44..48], &(-2.25f32).to_le_bytes());
    assert_eq!(&bytes[48..52], &300.0f32.to_le_bytes());
    assert_eq!(&bytes[52..56], &0.0f32.to_le_bytes());
    assert_eq!(bytes[56], 1);
}

#[test]
fn encode_writes_words_little_endian() {
    let mut s = sample(OID);
    s.frame = 0x0102_0304;
    s.is_jumping = false;
    let bytes = GameStatePacket::encode(&s).unwrap();
    assert_eq!(&bytes[36..40], &[4, 3, 2, 1]);
    assert_eq!(bytes[56], 0);
}

#[test]
fn decode_inverts_encode() {
    let s = sample(OID);
    let bytes = GameStatePacket(s.clone()).to_bytes().unwrap();
    let back = GameStatePacket::from_bytes(&bytes).unwrap();
    assert_eq!(back.0, s);
    assert_eq!(back.0.oid, OID);
    assert_eq!(f32::from_bits(back.0.x_bits), 1.5);
    assert_eq!(f32::from_bits(back.0.y_bits), -2.25);
}

#[test]
fn decode_inverts_encode_for_extreme_values() {
    let s = GameState {
        oid: "ffffffffffffffffffffffffffffffff".to_string(),
        frame: u32::MAX,
        x_bits: f32::NAN.to_bits(),
        y_bits: f32::INFINITY.to_bits(),
        vx_bits: f32::MIN.to_bits(),
        vy_bits: u32::MAX,
        is_jumping: false,
    };
    let bytes = GameStatePacket::encode(&s).unwrap();
    assert_eq!(GameStatePacket::from_bytes(&bytes).unwrap().0, s);
}

#[test]
fn decode_inverts_encode_for_multibyte_identifier() {
    // sixteen two-byte characters: 32 bytes, 16 chars
    let oid: String = "é".repeat(16);
    assert_eq!(oid.len(), 32);
    let s = sample(&oid);
    let bytes = GameStatePacket::encode(&s).unwrap();
    assert_eq!(GameStatePacket::from_bytes(&bytes).unwrap().0, s);
}

#[test]
fn encode_rejects_short_identifier() {
    assert_eq!(GameStatePacket(sample("short")).to_bytes(), Err(NetError::Serialization));
}

#[test]
fn encode_rejects_empty_identifier() {
    assert_eq!(GameStatePacket(sample("")).to_bytes(), Err(NetError::Serialization));
}

#[test]
fn encode_rejects_long_identifier() {
    let oid = "0123456789abcdef0123456789abcdef0";
    assert_eq!(oid.len(), 33);
    assert_eq!(GameStatePacket(sample(oid)).to_bytes(), Err(NetError::Serialization));
}

#[test]
fn encode_counts_bytes_not_characters() {
    // 32 characters but 64 bytes
    let oid: String = "é".repeat(32);
    assert_eq!(GameStatePacket(sample(&oid)).to_bytes(), Err(NetError::Serialization));
}

#[test]
fn encode_fails_exactly_when_identifier_is_not_32_bytes() {
    for n in 0..80usize {
        let oid = "a".repeat(n);
        let res = GameStatePacket(sample(&oid)).to_bytes();
        assert_eq!(res.is_err(), n != 32);
    }
}

#[test]
fn decode_rejects_wrong_length() {
    let bytes = GameStatePacket(sample(OID)).to_bytes().unwrap();
    assert_eq!(GameStatePacket::from_bytes(&bytes[..56]), Err(NetError::Serialization));
    let mut longer = bytes.clone();
    longer.push(0);
    assert_eq!(GameStatePacket::from_bytes(&longer), Err(NetError::Serialization));
    assert_eq!(GameStatePacket::from_bytes(&[]), Err(NetError::Serialization));
    assert_eq!(GameStatePacket::from_bytes(&[0u8; 10]), Err(NetError::Serialization));
}

#[test]
fn decode_rejects_wrong_length_prefix() {
    let mut bytes = GameStatePacket(sample(OID)).to_bytes().unwrap();
    bytes[0] = 31;
    assert_eq!(GameStatePacket::from_bytes(&bytes), Err(NetError::Serialization));
    bytes[0] = 32;
    bytes[3] = 1;
    assert_eq!(GameStatePacket::from_bytes(&bytes), Err(NetError::Serialization));
}

#[test]
fn decode_rejects_identifier_that_is_not_utf8() {
    let mut bytes = GameStatePacket(sample(OID)).to_bytes().unwrap();
    bytes[10] = 0xff;
    assert_eq!(GameStatePacket::from_bytes(&bytes), Err(NetError::Serialization));
}

#[test]
fn decode_rejects_flag_other_than_zero_or_one() {
    let mut bytes = GameStatePacket(sample(OID)).to_bytes().unwrap();
    bytes[56] = 2;
    assert_eq!(GameStatePacket::from_bytes(&bytes), Err(NetError::Serialization));
    bytes[56] = 0;
    assert!(!GameStatePacket::from_bytes(&bytes).unwrap().0.is_jumping);
}

#[test]
fn decode_of_all_zero_packet_fails_without_panic() {
    assert_eq!(GameStatePacket::from_bytes(&[0u8; 57]), Err(NetError::Serialization));
}

#[test]
fn error_descriptions_differ() {
    let all = [
        NetError::Connect,
        NetError::Protocol,
        NetError::Timeout,
        NetError::Serialization,
        NetError::TransportIo,
    ];
    for (i, a) in all.iter().enumerate() {
        assert!(!a.describe().is_empty());
        for b in all.iter().skip(i + 1) {
            assert_ne!(a.describe(), b.describe());
        }
    }
    assert_eq!(NetError::Timeout.describe(), "timed out waiting for the server");
}
