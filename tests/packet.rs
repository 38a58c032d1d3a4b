use rustnithm::air::{get_air_packet, AirMode};
use rustnithm::packet::{encode_packet, PacketKind};

fn card() -> Vec<u8> {
    vec![1, 2, 3, 4, 5, 6, 7, 8, 9, 10]
}

#[test]
fn buttons_packet_bytes() {
    assert_eq!(encode_packet(PacketKind::Buttons, false, true, 0b0000_0101, 0, 0, &card()), vec![0b0001_0000, 0b0000_0101]);
    assert_eq!(encode_packet(PacketKind::Buttons, true, true, 0b0000_0101, 0, 0, &card()), vec![0b1001_0000, 0b0000_0101]);
    // only the low byte of the mask is sent
    assert_eq!(encode_packet(PacketKind::Buttons, false, true, 0x1234, 0, 0, &card()), vec![0x10, 0x34]);
}

#[test]
fn handshake_packet_bytes() {
    assert_eq!(encode_packet(PacketKind::Handshake, false, true, 0, 0, 0, &card()), vec![0x00, 0x30]);
    assert_eq!(encode_packet(PacketKind::Handshake, true, false, 0, 0, 0, &card()), vec![0x80, 0x80]);
}

#[test]
fn air_packet_bytes() {
    assert_eq!(
        encode_packet(PacketKind::Air, false, true, 0, 0x29, 0x0403_0201, &card()),
        vec![0x20, 0x29, 0x01, 0x02, 0x03, 0x04]
    );
    assert_eq!(
        encode_packet(PacketKind::Air, true, true, 0, 0, u32::MAX, &card()),
        vec![0xA0, 0x00, 0xFF, 0xFF, 0xFF, 0xFF]
    );
}

#[test]
fn card_packet_bytes() {
    let mut expected = vec![0x30];
    expected.extend(card());
    assert_eq!(encode_packet(PacketKind::Card, false, true, 0, 0, 0, &card()), expected);
    assert_eq!(encode_packet(PacketKind::Card, false, true, 0, 0, 0, &card()).len(), 11);
}

#[test]
fn packet_kind_codes() {
    assert_eq!(PacketKind::from_code(0), PacketKind::Handshake);
    assert_eq!(PacketKind::from_code(16), PacketKind::Buttons);
    assert_eq!(PacketKind::from_code(32), PacketKind::Air);
    assert_eq!(PacketKind::from_code(48), PacketKind::Card);
    assert_eq!(PacketKind::from_code(7), PacketKind::Buttons);
}

#[test]
fn air_mode_codes() {
    assert_eq!(AirMode::from_code(0), AirMode::Off);
    assert_eq!(AirMode::from_code(1), AirMode::Passthrough);
    assert_eq!(AirMode::from_code(2), AirMode::Passthrough);
    assert_eq!(AirMode::from_code(3), AirMode::AnimatedMickey);
    assert_eq!(AirMode::from_code(9), AirMode::Off);
}

#[test]
fn air_off_yields_zero_and_resets_counter() {
    for mickey in [false, true] {
        let mut frame: u32 = 57;
        assert_eq!(get_air_packet(AirMode::Off, mickey, 0x7F, &mut frame), 0);
        assert_eq!(frame, 0);
        assert_eq!(get_air_packet(AirMode::Off, mickey, 0x7F, &mut frame), 0);
        assert_eq!(frame, 0);
    }
}

#[test]
fn air_passthrough_returns_stored_byte() {
    let mut frame: u32 = 9;
    assert_eq!(get_air_packet(AirMode::Passthrough, true, 0x44, &mut frame), 0x44);
    assert_eq!(frame, 0);
}

#[test]
fn air_animation_cycles_every_twenty_calls() {
    let mut frame: u32 = 0;
    let mut seen = Vec::new();
    for _ in 0..100 {
        seen.push(get_air_packet(AirMode::AnimatedMickey, true, 0, &mut frame));
    }
    assert_eq!(frame, 100);
    assert!(seen[0..20].iter().all(|&b| b == 0x23));
    assert!(seen[20..40].iter().all(|&b| b == 0x25));
    assert!(seen[40..60].iter().all(|&b| b == 0x29));
    assert!(seen[60..80].iter().all(|&b| b == 0x31));
    assert!(seen[80..100].iter().all(|&b| b == 0x23));
}

#[test]
fn air_animation_counter_wraps() {
    let mut frame: u32 = u32::MAX;
    get_air_packet(AirMode::AnimatedMickey, true, 0, &mut frame);
    assert_eq!(frame, 0);
}

#[test]
fn air_animation_needs_mickey_flag() {
    let mut frame: u32 = 33;
    assert_eq!(get_air_packet(AirMode::AnimatedMickey, false, 0x44, &mut frame), 0);
    assert_eq!(frame, 0);
}
