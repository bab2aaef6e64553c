use betterserver::packet::{Packet, PacketType};

#[test]
fn wu8_round_trip() {
    let mut p = Packet::new(PacketType::ServerPong);
    p.wu8(0xAB);
    p.rewind(2);
    assert_eq!(p.ru8().unwrap(), 0xAB);
}

#[test]
fn wi8_round_trip() {
    let mut p = Packet::new(PacketType::ServerPong);
    p.wi8(-77);
    p.rewind(2);
    assert_eq!(p.ri8().unwrap(), -77);
}

#[test]
fn wu16_round_trip() {
    let mut p = Packet::new(PacketType::ServerPong);
    p.wu16(0xBEEF);
    p.rewind(2);
    assert_eq!(p.ru16().unwrap(), 0xBEEF);
}

#[test]
fn wi16_round_trip() {
    let mut p = Packet::new(PacketType::ServerPong);
    p.wi16(-32768);
    p.wi16(12345);
    p.rewind(2);
    assert_eq!(p.ri16().unwrap(), -32768);
    assert_eq!(p.ri16().unwrap(), 12345);
}

#[test]
fn wu32_round_trip() {
    let mut p = Packet::new(PacketType::ServerPong);
    p.wu32(0xDEADBEEF);
    p.rewind(2);
    assert_eq!(p.ru32().unwrap(), 0xDEADBEEF);
}

#[test]
fn wi32_round_trip() {
    let mut p = Packet::new(PacketType::ServerPong);
    p.wi32(-2147483648);
    p.rewind(2);
    assert_eq!(p.ri32().unwrap(), -2147483648);
}

#[test]
fn wu64_round_trip() {
    let mut p = Packet::new(PacketType::ServerPong);
    p.wu64(0x0123456789ABCDEF);
    p.rewind(2);
    assert_eq!(p.ru64().unwrap(), 0x0123456789ABCDEF);
}

#[test]
fn wi64_round_trip() {
    let mut p = Packet::new(PacketType::ServerPong);
    p.wi64(-9223372036854775808);
    p.rewind(2);
    assert_eq!(p.ri64().unwrap(), -9223372036854775808);
}

#[test]
fn scalar_little_endian_layout() {
    let mut p = Packet::new(PacketType::ServerPong);
    p.wu16(0x0102);
    assert_eq!(p.raw(), &[0, PacketType::ServerPong.code(), 0x02, 0x01]);
}

#[test]
fn wstr_rstr_round_trip_ascii() {
    let mut p = Packet::new(PacketType::ServerPong);
    p.wstr("hello world");
    p.rewind(2);
    assert_eq!(p.rstr().unwrap(), "hello world");
}

#[test]
fn wstr_rstr_round_trip_unicode() {
    let mut p = Packet::new(PacketType::ServerPong);
    p.wstr("héllo wörld ✓");
    p.rewind(2);
    assert_eq!(p.rstr().unwrap(), "héllo wörld ✓");
}

#[test]
fn wstr_rstr_embedded_nul_is_not_identity() {
    let mut p = Packet::new(PacketType::ServerPong);
    p.wstr("ab\0cd");
    p.rewind(2);
    let back = p.rstr().unwrap();
    assert_ne!(back, "ab\0cd");
    assert_eq!(back, "ab");
}

#[test]
fn rstr_rejects_invalid_utf8() {
    let bytes = [0xFFu8, 0xFE, 0x00];
    let mut p = Packet::from(&bytes, 3);
    assert!(p.rstr().is_err());
}

#[test]
fn rstr_without_terminator_errs() {
    let bytes = [b'a', b'b'];
    let mut p = Packet::from(&bytes, 2);
    assert!(p.rstr().is_err());
}

#[test]
fn reads_past_end_err() {
    let mut p = Packet::from(&[1, 2], 2);
    p.rewind(1);
    assert!(p.ru16().is_err());
    assert!(p.ru32().is_err());
    assert!(p.ru64().is_err());
    assert_eq!(p.ru8().unwrap(), 2);
    assert!(p.ru8().is_err());
}

#[test]
fn sized_prefixes_length() {
    let mut p = Packet::new(PacketType::ServerHeartbeat);
    p.wu8(7);
    let framed = p.sized();
    assert_eq!(framed[0] as usize, p.len());
    assert_eq!(&framed[1..], p.raw());
}

#[test]
fn from_sized_tail_reproduces_body() {
    let mut p = Packet::new(PacketType::ServerGameTimeSync);
    p.wu16(0x1234);
    p.wstr("tail");
    let framed = p.sized();
    let rebuilt = Packet::from(&framed[1..], framed.len() - 1);
    assert_eq!(rebuilt.raw(), p.raw());
}

#[test]
fn headless_synthesizes_prefix() {
    let body = [9u8, 8, 7];
    let p = Packet::headless(PacketType::ClientPlayerData, &body, 3);
    assert_eq!(
        p.raw(),
        &[0, PacketType::ClientPlayerData.code(), 9, 8, 7]
    );
}

#[test]
fn packet_type_codes_round_trip() {
    assert_eq!(PacketType::Identity.code(), 0);
    assert_eq!(PacketType::ServerIdentityResponse.code(), 1);
    assert_eq!(PacketType::ClientPlayerPotater.code(), 118);
    for v in 0..=118u8 {
        let t = PacketType::from_code(v).unwrap();
        assert_eq!(t.code(), v);
    }
    assert!(PacketType::from_code(119).is_none());
    assert!(PacketType::from_code(255).is_none());
}

#[test]
fn rpk_rejects_unknown_opcode() {
    let bytes = [200u8];
    let mut p = Packet::from(&bytes, 1);
    assert!(p.rpk().is_err());
}
