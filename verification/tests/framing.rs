use betterserver::framing::FrameAssembler;
use betterserver::packet::{Packet, PacketType};

#[test]
fn frame_split_across_chunks() {
    let mut assembler = FrameAssembler::new();
    let mut frames: Vec<Packet> = Vec::new();
    assembler.feed(&[5], &mut frames);
    assert_eq!(frames.len(), 0);
    let t = PacketType::ServerHeartbeat.code();
    assembler.feed(&[0, t, 11, 22, 33], &mut frames);
    assert_eq!(frames.len(), 1);
    let p = &mut frames[0];
    assert_eq!(p.ru8().unwrap(), 0);
    assert_eq!(p.ru8().unwrap(), t);
    assert_eq!(p.ru8().unwrap(), 11);
    assert_eq!(p.ru8().unwrap(), 22);
    assert_eq!(p.ru8().unwrap(), 33);
    assert!(p.ru8().is_err());
}

#[test]
fn frame_split_mid_payload() {
    let mut assembler = FrameAssembler::new();
    let mut frames: Vec<Packet> = Vec::new();
    assembler.feed(&[3, 1], &mut frames);
    assert_eq!(frames.len(), 0);
    assembler.feed(&[2], &mut frames);
    assert_eq!(frames.len(), 0);
    assembler.feed(&[3], &mut frames);
    assert_eq!(frames.len(), 1);
    assert_eq!(frames[0].raw(), &[1, 2, 3]);
}

#[test]
fn two_frames_in_one_read() {
    let mut assembler = FrameAssembler::new();
    let mut frames: Vec<Packet> = Vec::new();
    assembler.feed(&[2, 10, 20, 1, 30], &mut frames);
    assert_eq!(frames.len(), 2);
    assert_eq!(frames[0].raw(), &[10, 20]);
    assert_eq!(frames[1].raw(), &[30]);
}

#[test]
fn length_prefix_matches_sized_form() {
    let mut p = Packet::new(PacketType::ServerHeartbeat);
    p.wu16(0x4142);
    let wire = p.sized();
    let mut assembler = FrameAssembler::new();
    let mut frames: Vec<Packet> = Vec::new();
    assembler.feed(&wire, &mut frames);
    assert_eq!(frames.len(), 1);
    assert_eq!(frames[0].raw(), p.raw());
}
