use vstd::prelude::*;

verus! {

/// Pattern that the cosmetic "mickey" flag forces on in the status byte.
pub const MICKEY_BASE: u8 = 0x21;

/// Calls for which each frame of the cosmetic animation is held.
pub const MICKEY_FRAME_HOLD: u32 = 20;

/// How the air status byte of an air packet is chosen.
#[derive(Clone, Copy, Debug, PartialEq, Eq, Structural)]
pub enum AirMode {
    /// Always zero.
    Off,
    /// The last status byte stored by the host or computed by the flick detector.
    Passthrough,
    /// A looping cosmetic animation, while the mickey flag is on.
    AnimatedMickey,
}

/// The mode that a host mode code selects: 1 (host byte) and 2 (flick
/// detector) both pass the stored byte through, 3 animates, anything else is off.
pub open spec fn air_mode_of(code: u32) -> AirMode {
    if code == 1 || code == 2 {
        AirMode::Passthrough
    } else if code == 3 {
        AirMode::AnimatedMickey
    } else {
        AirMode::Off
    }
}

impl AirMode {
    pub fn from_code(code: u32) -> (r: AirMode)
        ensures
            r == air_mode_of(code),
    {
        if code == 1 || code == 2 {
            AirMode::Passthrough
        } else if code == 3 {
            AirMode::AnimatedMickey
        } else {
            AirMode::Off
        }
    }
}

/// The running bit of the cosmetic animation at call `frame`: four positions
/// in turn, each held for `MICKEY_FRAME_HOLD` calls.
pub open spec fn mickey_running_bit(frame: u32) -> u8 {
    let k = (frame / MICKEY_FRAME_HOLD) % 4;
    if k == 0 {
        0x02
    } else if k == 1 {
        0x04
    } else if k == 2 {
        0x08
    } else {
        0x10
    }
}

/// Whether the cosmetic animation drives the status byte.
pub open spec fn animating(mode: AirMode, mickey_on: bool) -> bool {
    mode == AirMode::AnimatedMickey && mickey_on
}

/// The air status byte sent for the given mode, flag, stored byte and
/// animation counter.
pub open spec fn air_status(mode: AirMode, mickey_on: bool, stored: u8, frame: u32) -> u8 {
    if animating(mode, mickey_on) {
        MICKEY_BASE | mickey_running_bit(frame)
    } else if mode == AirMode::Passthrough {
        stored
    } else {
        0
    }
}

/// The animation counter after one air status byte was produced: it
/// advances (wrapping) while animating, and is reset otherwise.
pub open spec fn next_mickey_frame(mode: AirMode, mickey_on: bool, frame: u32) -> u32 {
    if animating(mode, mickey_on) {
        if frame == u32::MAX { 0 } else { (frame + 1) as u32 }
    } else {
        0
    }
}

/// Produces the air status byte for one air packet and advances the
/// cosmetic animation counter.
pub fn get_air_packet(mode: AirMode, mickey_on: bool, stored: u8, mickey_frame: &mut u32) -> (r: u8)
    ensures
        r == air_status(mode, mickey_on, stored, *old(mickey_frame)),
        *final(mickey_frame) == next_mickey_frame(mode, mickey_on, *old(mickey_frame)),
        mode == AirMode::Off ==> r == 0 && *final(mickey_frame) == 0,
{
    if mode == AirMode::AnimatedMickey && mickey_on {
        let k = (*mickey_frame / MICKEY_FRAME_HOLD) % 4;
        let running: u8 = if k == 0 {
            0x02
        } else if k == 1 {
            0x04
        } else if k == 2 {
            0x08
        } else {
            0x10
        };
        *mickey_frame = mickey_frame.wrapping_add(1);
        MICKEY_BASE | running
    } else if mode == AirMode::Passthrough {
        *mickey_frame = 0;
        stored
    } else {
        *mickey_frame = 0;
        0
    }
}

} // verus!
