use vstd::prelude::*;

verus! {

/// Kind of an outgoing packet.
#[derive(Clone, Copy, Debug, PartialEq, Eq, Structural)]
pub enum PacketKind {
    Handshake,
    Buttons,
    Air,
    Card,
}

/// Length of a card identifier.
pub const CARD_LEN: usize = 10;

/// The kind that a host packet-kind code selects (0, 16, 32, 48); an
/// unknown code selects buttons.
pub open spec fn kind_of_code(code: u32) -> PacketKind {
    if code == 0 {
        PacketKind::Handshake
    } else if code == 32 {
        PacketKind::Air
    } else if code == 48 {
        PacketKind::Card
    } else {
        PacketKind::Buttons
    }
}

impl PacketKind {
    pub fn from_code(code: u32) -> (r: PacketKind)
        ensures
            r == kind_of_code(code),
    {
        if code == 0 {
            PacketKind::Handshake
        } else if code == 32 {
            PacketKind::Air
        } else if code == 48 {
            PacketKind::Card
        } else {
            PacketKind::Buttons
        }
    }
}

/// The two-bit code of a kind in the header.
pub open spec fn kind_bits(kind: PacketKind) -> u8 {
    match kind {
        PacketKind::Handshake => 0,
        PacketKind::Buttons => 1,
        PacketKind::Air => 2,
        PacketKind::Card => 3,
    }
}

/// Byte 0 of every outgoing packet: bit 7 the protocol variant, bit 6 clear
/// (sent by this side), bits 5-4 the kind, bits 3-0 clear.
pub open spec fn header_byte(variant: bool, kind: PacketKind) -> u8 {
    ((if variant { 0x80int } else { 0int }) + 16 * kind_bits(kind)) as u8
}

/// Payload byte of a handshake packet asking for `target_active` (bit 7 for
/// disconnected, bits 5-4 for active).
pub open spec fn handshake_byte(target_active: bool) -> u8 {
    if target_active { 0x30 } else { 0x80 }
}

/// A 32-bit value as four bytes, lowest first.
pub open spec fn le_bytes(x: u32) -> Seq<u8> {
    seq![
        (x % 0x100) as u8,
        ((x / 0x100) % 0x100) as u8,
        ((x / 0x1_0000) % 0x100) as u8,
        (x / 0x100_0000) as u8,
    ]
}

/// The bytes of one outgoing packet of kind `kind`.
pub open spec fn packet_bytes(
    kind: PacketKind,
    variant: bool,
    target_active: bool,
    button_mask: u32,
    air: u8,
    slider_mask: u32,
    card: Seq<u8>,
) -> Seq<u8> {
    let h = header_byte(variant, kind);
    match kind {
        PacketKind::Handshake => seq![h, handshake_byte(target_active)],
        PacketKind::Buttons => seq![h, (button_mask % 0x100) as u8],
        PacketKind::Air => seq![h, air] + le_bytes(slider_mask),
        PacketKind::Card => seq![h] + card,
    }
}

/// Encodes one outgoing packet: handshake and buttons packets are 2 bytes,
/// air packets 6, card packets 11.
pub fn encode_packet(
    kind: PacketKind,
    variant: bool,
    target_active: bool,
    button_mask: u32,
    air: u8,
    slider_mask: u32,
    card: &Vec<u8>,
) -> (r: Vec<u8>)
    requires
        card@.len() == CARD_LEN,
    ensures
        r@ == packet_bytes(kind, variant, target_active, button_mask, air, slider_mask, card@),
{
    let kind_code: u8 = match kind {
        PacketKind::Handshake => 0,
        PacketKind::Buttons => 1,
        PacketKind::Air => 2,
        PacketKind::Card => 3,
    };
    let header: u8 = (if variant { 0x80u8 } else { 0u8 }) + 16 * kind_code;
    let mut out: Vec<u8> = Vec::new();
    out.push(header);
    match kind {
        PacketKind::Handshake => {
            out.push(if target_active { 0x30 } else { 0x80 });
        },
        PacketKind::Buttons => {
            out.push((button_mask % 0x100) as u8);
        },
        PacketKind::Air => {
            out.push(air);
            out.push((slider_mask % 0x100) as u8);
            out.push(((slider_mask / 0x100) % 0x100) as u8);
            out.push(((slider_mask / 0x1_0000) % 0x100) as u8);
            out.push((slider_mask / 0x100_0000) as u8);
            assert(out@ =~= seq![header, air] + le_bytes(slider_mask));
        },
        PacketKind::Card => {
            let mut i: usize = 0;
            while i < card.len()
                invariant
                    card@.len() == CARD_LEN,
                    0 <= i <= CARD_LEN,
                    out@ =~= seq![header] + card@.subrange(0, i as int),
                decreases CARD_LEN - i,
            {
                out.push(card[i]);
                i += 1;
            }
            assert(card@.subrange(0, CARD_LEN as int) =~= card@);
        },
    }
    out
}

} // verus!
