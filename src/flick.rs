use vstd::prelude::*;

use crate::air::MICKEY_BASE;

verus! {

/// Number of pointer slots, and of entries in the live position array.
pub const POINTER_SLOTS: usize = 10;

/// Touch positions are fixed point: one host unit is this many steps.
pub const Y_SCALE: i32 = 1000;

/// Magnitude drained from a water level on each sampling tick (0.192 units).
pub const DRAIN_PER_TICK: i64 = 192;

/// Water level at which a flick fires (60 units).
pub const FLICK_THRESHOLD: i64 = 60000;

/// Frames in each of the two stages of a flick animation.
pub const STAGE_FRAMES: u32 = 625;

/// Frames of a whole flick animation.
pub const TOTAL_ANIM_FRAMES: u32 = 1250;

/// Who a pointer slot belongs to.
#[derive(Clone, Copy, Debug, PartialEq, Eq, Structural)]
pub enum SlotOwner {
    /// The slot can be claimed by the next touch-down.
    Free,
    /// The slot follows the pointer with this id.
    Pointer(i32),
    /// The finger was lifted while an animation ran; the slot is freed when it ends.
    PendingRelease,
}

/// One slot of the flick detector.
#[derive(Clone, Copy, Debug, PartialEq, Eq, Structural)]
pub struct FlickPool {
    pub owner: SlotOwner,
    /// Leaky integral of vertical movement, in fixed-point steps.
    pub water_level: i64,
    /// Position seen at the last sampling tick.
    pub last_y: i32,
    /// Animation frames left; zero when no animation runs.
    pub active_step: u32,
    /// Direction of the last flick.
    pub is_up: bool,
}

/// A slot's own invariant.
pub open spec fn slot_wf(s: FlickPool) -> bool {
    &&& match s.owner {
        SlotOwner::Pointer(pid) => 0 <= pid < POINTER_SLOTS,
        _ => true,
    }
    &&& -FLICK_THRESHOLD < s.water_level < FLICK_THRESHOLD
    &&& s.active_step <= TOTAL_ANIM_FRAMES
    &&& (s.owner == SlotOwner::PendingRelease ==> s.active_step > 0)
    &&& (s.owner == SlotOwner::Free ==> s.active_step == 0)
}

/// The water level after one tick of drain: its magnitude shrinks by
/// `DRAIN_PER_TICK`, and it stops at zero rather than crossing it.
pub open spec fn leak(w: int) -> int {
    if w > DRAIN_PER_TICK {
        w - DRAIN_PER_TICK
    } else if w < -DRAIN_PER_TICK {
        w + DRAIN_PER_TICK
    } else {
        0
    }
}

/// A slot after one sampling tick, given the latest position of each pointer.
pub open spec fn sample_slot(s: FlickPool, live_y: Seq<i32>) -> FlickPool {
    if s.active_step > 0 {
        let step = (s.active_step - 1) as u32;
        if step == 0 && s.owner == SlotOwner::PendingRelease {
            FlickPool { owner: SlotOwner::Free, water_level: 0, active_step: 0, ..s }
        } else {
            FlickPool { active_step: step, ..s }
        }
    } else {
        match s.owner {
            SlotOwner::Pointer(pid) => {
                let cur = live_y[pid as int];
                let w = leak(s.water_level + (cur - s.last_y));
                if w >= FLICK_THRESHOLD {
                    FlickPool {
                        water_level: 0,
                        last_y: cur,
                        active_step: TOTAL_ANIM_FRAMES,
                        is_up: true,
                        ..s
                    }
                } else if w <= -FLICK_THRESHOLD {
                    FlickPool {
                        water_level: 0,
                        last_y: cur,
                        active_step: TOTAL_ANIM_FRAMES,
                        is_up: false,
                        ..s
                    }
                } else {
                    FlickPool { water_level: w as i64, last_y: cur, ..s }
                }
            },
            _ => s,
        }
    }
}

/// The two bits a slot adds to the status byte: one pair of positions per
/// direction, the first for the first stage of the animation, the second for
/// the second stage.
pub open spec fn slot_bits(s: FlickPool) -> u8 {
    if s.active_step == 0 {
        0
    } else if s.active_step > STAGE_FRAMES {
        if s.is_up { 0x02 } else { 0x10 }
    } else {
        if s.is_up { 0x04 } else { 0x08 }
    }
}

fn leak_level(w: i64) -> (r: i64)
    requires
        -0x4000_0000_0000_0000 < w < 0x4000_0000_0000_0000,
    ensures
        r == leak(w as int),
{
    if w > DRAIN_PER_TICK {
        w - DRAIN_PER_TICK
    } else if w < -DRAIN_PER_TICK {
        w + DRAIN_PER_TICK
    } else {
        0
    }
}

/// Advances one slot by a sampling tick.
fn sample_one(s: FlickPool, live_y: &Vec<i32>) -> (r: FlickPool)
    requires
        slot_wf(s),
        live_y@.len() == POINTER_SLOTS,
    ensures
        r == sample_slot(s, live_y@),
        slot_wf(r),
{
    if s.active_step > 0 {
        let step = s.active_step - 1;
        if step == 0 && s.owner == SlotOwner::PendingRelease {
            FlickPool { owner: SlotOwner::Free, water_level: 0, active_step: 0, ..s }
        } else {
            FlickPool { active_step: step, ..s }
        }
    } else {
        match s.owner {
            SlotOwner::Pointer(pid) => {
                let cur = live_y[pid as usize];
                let dy: i64 = cur as i64 - s.last_y as i64;
                let w = leak_level(s.water_level + dy);
                if w >= FLICK_THRESHOLD {
                    FlickPool { water_level: 0, last_y: cur, active_step: TOTAL_ANIM_FRAMES, is_up: true, ..s }
                } else if w <= -FLICK_THRESHOLD {
                    FlickPool { water_level: 0, last_y: cur, active_step: TOTAL_ANIM_FRAMES, is_up: false, ..s }
                } else {
                    FlickPool { water_level: w, last_y: cur, ..s }
                }
            },
            _ => s,
        }
    }
}

/// The bits one slot contributes to the status byte.
fn bits_of(s: &FlickPool) -> (r: u8)
    ensures
        r == slot_bits(*s),
{
    if s.active_step == 0 {
        0
    } else if s.active_step > STAGE_FRAMES {
        if s.is_up { 0x02 } else { 0x10 }
    } else {
        if s.is_up { 0x04 } else { 0x08 }
    }
}

/// The status byte built over the first `n` slots: the cosmetic base pattern
/// when the flag is on, with the bits of each of those slots OR-ed in.
pub open spec fn status_prefix(slots: Seq<FlickPool>, mickey_on: bool, n: int) -> u8
    decreases n,
{
    if n <= 0 {
        if mickey_on { MICKEY_BASE } else { 0 }
    } else {
        status_prefix(slots, mickey_on, n - 1) | slot_bits(slots[n - 1])
    }
}

/// The status byte of a whole pool of slots.
pub open spec fn status_byte(slots: Seq<FlickPool>, mickey_on: bool) -> u8 {
    status_prefix(slots, mickey_on, slots.len() as int)
}

/// Whether some slot follows the pointer `pid`.
pub open spec fn tracks(slots: Seq<FlickPool>, pid: i32) -> bool {
    exists|i: int| 0 <= i < slots.len() && slots[i].owner == SlotOwner::Pointer(pid)
}

/// Whether slot `i` is the first free one.
pub open spec fn is_first_free(slots: Seq<FlickPool>, i: int) -> bool {
    &&& 0 <= i < slots.len()
    &&& slots[i].owner == SlotOwner::Free
    &&& forall|j: int| 0 <= j < i ==> slots[j].owner != SlotOwner::Free
}

/// A free slot once a touch-down at `y` has claimed it for `pid`.
pub open spec fn claimed(s: FlickPool, pid: i32, y: i32) -> FlickPool {
    FlickPool { owner: SlotOwner::Pointer(pid), water_level: 0, last_y: y, active_step: 0, ..s }
}

/// What a touch-down of `pid` at `y` does to the slots and positions
/// (`s0`, `l0` before, `s1`, `l1` after).
pub open spec fn touch_down_effect(
    s0: Seq<FlickPool>,
    l0: Seq<i32>,
    s1: Seq<FlickPool>,
    l1: Seq<i32>,
    pid: i32,
    y: i32,
) -> bool {
    if tracks(s0, pid) || (forall|i: int| 0 <= i < s0.len() ==> (#[trigger] s0[i]).owner != SlotOwner::Free) {
        s1 == s0 && l1 == l0
    } else {
        exists|i: int| is_first_free(s0, i) && s1 == s0.update(i, claimed(s0[i], pid, y)) && l1 == l0
    }
}

/// Touch events leave animations alone: every slot keeps its frame count,
/// and a running animation its direction.
pub open spec fn frames_kept(s0: Seq<FlickPool>, s1: Seq<FlickPool>) -> bool {
    &&& s1.len() == s0.len()
    &&& forall|i: int|
        0 <= i < s0.len() ==> (#[trigger] s1[i]).active_step == s0[i].active_step && (s0[i].active_step > 0
            ==> s1[i].is_up == s0[i].is_up)
}

/// The flick detector: a fixed pool of pointer slots and the latest position
/// reported for each pointer id.
pub struct FlickDetector {
    pub pools: Vec<FlickPool>,
    /// Latest position of each pointer, indexed by pointer id. Written by
    /// touch events, read only by the sampling pass.
    pub live_y: Vec<i32>,
}

impl FlickDetector {
    /// Ten slots, each valid, and no pointer followed by two of them.
    pub open spec fn wf(&self) -> bool {
        &&& self.pools@.len() == POINTER_SLOTS
        &&& self.live_y@.len() == POINTER_SLOTS
        &&& forall|i: int| 0 <= i < self.pools@.len() ==> slot_wf(#[trigger] self.pools@[i])
        &&& forall|i: int, j: int|
            0 <= i < self.pools@.len() && 0 <= j < self.pools@.len() && i != j
                && (#[trigger] self.pools@[i]).owner is Pointer
                ==> self.pools@[i].owner != (#[trigger] self.pools@[j]).owner
    }

    /// A detector with every slot free and every position at zero.
    pub fn new() -> (r: FlickDetector)
        ensures
            r.wf(),
            forall|i: int| 0 <= i < r.pools@.len() ==> (#[trigger] r.pools@[i]) == (FlickPool {
                owner: SlotOwner::Free,
                water_level: 0,
                last_y: 0,
                active_step: 0,
                is_up: true,
            }),
            forall|i: int| 0 <= i < r.live_y@.len() ==> #[trigger] r.live_y@[i] == 0,
    {
        let mut pools: Vec<FlickPool> = Vec::new();
        let mut live_y: Vec<i32> = Vec::new();
        let mut i: usize = 0;
        while i < POINTER_SLOTS
            invariant
                i <= POINTER_SLOTS,
                pools@.len() == i,
                live_y@.len() == i,
                forall|k: int| 0 <= k < i ==> (#[trigger] pools@[k]) == (FlickPool {
                    owner: SlotOwner::Free,
                    water_level: 0,
                    last_y: 0,
                    active_step: 0,
                    is_up: true,
                }),
                forall|k: int| 0 <= k < i ==> #[trigger] live_y@[k] == 0,
            decreases POINTER_SLOTS - i,
        {
            pools.push(FlickPool { owner: SlotOwner::Free, water_level: 0, last_y: 0, active_step: 0, is_up: true });
            live_y.push(0);
            i += 1;
        }
        FlickDetector { pools, live_y }
    }
}

/// Sampling pass: advances every slot by one tick (see `sample_slot`) and
/// returns the status byte computed from the slots as they were before it.
pub fn process_flick_sampling(det: &mut FlickDetector, mickey_on: bool) -> (r: u8)
    requires
        old(det).wf(),
    ensures
        final(det).wf(),
        final(det).live_y@ == old(det).live_y@,
        final(det).pools@ == old(det).pools@.map_values(|s: FlickPool| sample_slot(s, old(det).live_y@)),
        r == status_byte(old(det).pools@, mickey_on),
{
    let ghost before = det.pools@;
    let mut byte: u8 = if mickey_on { MICKEY_BASE } else { 0 };
    let mut i: usize = 0;
    while i < det.pools.len()
        invariant
            before == old(det).pools@,
            det.live_y@ == old(det).live_y@,
            det.live_y@.len() == POINTER_SLOTS,
            det.pools@.len() == POINTER_SLOTS,
            0 <= i <= POINTER_SLOTS,
            forall|k: int| 0 <= k < i ==> #[trigger] det.pools@[k] == sample_slot(before[k], det.live_y@),
            forall|k: int| i <= k < POINTER_SLOTS ==> #[trigger] det.pools@[k] == before[k],
            forall|k: int| 0 <= k < POINTER_SLOTS ==> slot_wf(#[trigger] before[k]),
            forall|k: int| 0 <= k < POINTER_SLOTS ==> slot_wf(#[trigger] det.pools@[k]),
            byte == status_prefix(before, mickey_on, i as int),
        decreases POINTER_SLOTS - i,
    {
        let s = det.pools[i];
        byte = byte | bits_of(&s);
        let t = sample_one(s, &det.live_y);
        det.pools[i] = t;
        i += 1;
    }
    proof {
        assert(det.pools@ =~= before.map_values(|s: FlickPool| sample_slot(s, old(det).live_y@)));
        assert forall|a: int, b: int|
            0 <= a < POINTER_SLOTS && 0 <= b < POINTER_SLOTS && a != b
                && (#[trigger] det.pools@[a]).owner is Pointer
            implies det.pools@[a].owner != (#[trigger] det.pools@[b]).owner by {
            // sampling never gives a slot a new pointer: an owner that is a
            // pointer afterwards was that pointer before
            assert(det.pools@[a].owner == before[a].owner);
            if det.pools@[b].owner is Pointer {
                assert(det.pools@[b].owner == before[b].owner);
            }
        }
    }
    byte
}

/// Touch-down of pointer `pid` at position `y`. Nothing changes when the
/// pointer is already followed, or when no slot is free. Otherwise the first
/// free slot is claimed for it, with `y` as the position it starts from.
/// The live positions are written by touch-move alone.
pub fn update_touch_down(det: &mut FlickDetector, pid: i32, y: i32)
    requires
        old(det).wf(),
        0 <= pid < POINTER_SLOTS,
    ensures
        final(det).wf(),
        touch_down_effect(old(det).pools@, old(det).live_y@, final(det).pools@, final(det).live_y@, pid, y),
        frames_kept(old(det).pools@, final(det).pools@),
{
    let mut i: usize = 0;
    while i < det.pools.len()
        invariant
            *det == *old(det),
            det.wf(),
            0 <= i <= POINTER_SLOTS,
            forall|k: int| 0 <= k < i ==> (#[trigger] det.pools@[k]).owner != SlotOwner::Pointer(pid),
        decreases POINTER_SLOTS - i,
    {
        if det.pools[i].owner == SlotOwner::Pointer(pid) {
            return;
        }
        i += 1;
    }
    let mut k: usize = 0;
    while k < det.pools.len()
        invariant
            *det == *old(det),
            det.wf(),
            !tracks(det.pools@, pid),
            0 <= pid < POINTER_SLOTS,
            0 <= k <= POINTER_SLOTS,
            forall|j: int| 0 <= j < k ==> (#[trigger] det.pools@[j]).owner != SlotOwner::Free,
        decreases POINTER_SLOTS - k,
    {
        if det.pools[k].owner == SlotOwner::Free {
            let s = det.pools[k];
            det.pools[k] = FlickPool { owner: SlotOwner::Pointer(pid), water_level: 0, last_y: y, active_step: 0, is_up: s.is_up };
            proof {
                assert(is_first_free(old(det).pools@, k as int));
                assert forall|a: int, b: int|
                    0 <= a < POINTER_SLOTS && 0 <= b < POINTER_SLOTS && a != b
                        && (#[trigger] det.pools@[a]).owner is Pointer
                    implies det.pools@[a].owner != (#[trigger] det.pools@[b]).owner by {
                    if a != k && b != k {
                        assert(old(det).pools@[a] == det.pools@[a]);
                        assert(old(det).pools@[b] == det.pools@[b]);
                    } else if a == k {
                        assert(old(det).pools@[b] == det.pools@[b]);
                    } else {
                        assert(old(det).pools@[a] == det.pools@[a]);
                    }
                }
            }
            return;
        }
        k += 1;
    }
}

/// Touch-move of pointer `pid`: when the pointer is followed, `y` becomes
/// its latest position. The slots themselves are left to the sampling pass.
pub fn update_touch_move(det: &mut FlickDetector, pid: i32, y: i32)
    requires
        old(det).wf(),
    ensures
        final(det).wf(),
        final(det).pools@ == old(det).pools@,
        frames_kept(old(det).pools@, final(det).pools@),
        tracks(old(det).pools@, pid) ==> final(det).live_y@ == old(det).live_y@.update(pid as int, y),
        !tracks(old(det).pools@, pid) ==> final(det).live_y@ == old(det).live_y@,
{
    let mut i: usize = 0;
    while i < det.pools.len()
        invariant
            *det == *old(det),
            det.wf(),
            0 <= i <= POINTER_SLOTS,
            forall|k: int| 0 <= k < i ==> (#[trigger] det.pools@[k]).owner != SlotOwner::Pointer(pid),
        decreases POINTER_SLOTS - i,
    {
        if det.pools[i].owner == SlotOwner::Pointer(pid) {
            assert(slot_wf(det.pools@[i as int]));
            det.live_y[pid as usize] = y;
            return;
        }
        i += 1;
    }
}

/// Touch-up of pointer `pid`. Its slot, if any, is freed at once (with the
/// water level cleared) when no animation runs, and otherwise marked to be
/// freed when the animation ends.
pub fn update_touch_up(det: &mut FlickDetector, pid: i32)
    requires
        old(det).wf(),
    ensures
        final(det).wf(),
        final(det).live_y@ == old(det).live_y@,
        frames_kept(old(det).pools@, final(det).pools@),
        !tracks(old(det).pools@, pid) ==> final(det).pools@ == old(det).pools@,
        forall|i: int|
            0 <= i < old(det).pools@.len() && (#[trigger] old(det).pools@[i]).owner == SlotOwner::Pointer(pid)
                ==> final(det).pools@ == old(det).pools@.update(
                i,
                if old(det).pools@[i].active_step > 0 {
                    FlickPool { owner: SlotOwner::PendingRelease, ..old(det).pools@[i] }
                } else {
                    FlickPool { owner: SlotOwner::Free, water_level: 0, ..old(det).pools@[i] }
                },
            ),
{
    let mut i: usize = 0;
    while i < det.pools.len()
        invariant
            *det == *old(det),
            det.wf(),
            0 <= i <= POINTER_SLOTS,
            forall|k: int| 0 <= k < i ==> (#[trigger] det.pools@[k]).owner != SlotOwner::Pointer(pid),
        decreases POINTER_SLOTS - i,
    {
        let s = det.pools[i];
        if s.owner == SlotOwner::Pointer(pid) {
            if s.active_step > 0 {
                det.pools[i] = FlickPool { owner: SlotOwner::PendingRelease, ..s };
            } else {
                det.pools[i] = FlickPool { owner: SlotOwner::Free, water_level: 0, ..s };
            }
            return;
        }
        i += 1;
    }
}

/// A slot after `n` sampling ticks that all see the positions `live_y`.
pub open spec fn sample_slot_n(s: FlickPool, live_y: Seq<i32>, n: nat) -> FlickPool
    decreases n,
{
    if n == 0 {
        s
    } else {
        sample_slot_n(sample_slot(s, live_y), live_y, (n - 1) as nat)
    }
}

/// Touch-down is idempotent: a second touch-down of the same pointer, with
/// no touch-up between, leaves the slots and positions as the first left them.
pub proof fn lemma_touch_down_twice(
    s0: Seq<FlickPool>,
    l0: Seq<i32>,
    s1: Seq<FlickPool>,
    l1: Seq<i32>,
    s2: Seq<FlickPool>,
    l2: Seq<i32>,
    pid: i32,
    y1: i32,
    y2: i32,
)
    requires
        touch_down_effect(s0, l0, s1, l1, pid, y1),
        touch_down_effect(s1, l1, s2, l2, pid, y2),
    ensures
        s2 == s1,
        l2 == l1,
{
    if !(tracks(s0, pid) || (forall|i: int| 0 <= i < s0.len() ==> (#[trigger] s0[i]).owner != SlotOwner::Free)) {
        let i = choose|i: int| is_first_free(s0, i) && s1 == s0.update(i, claimed(s0[i], pid, y1)) && l1 == l0;
        assert(s1[i].owner == SlotOwner::Pointer(pid));
        assert(tracks(s1, pid));
    }
}

/// Without new movement the water level drains: it moves toward zero by
/// `DRAIN_PER_TICK` each tick, never past zero, and no flick fires.
pub proof fn lemma_water_decays(s: FlickPool, live_y: Seq<i32>)
    requires
        slot_wf(s),
        live_y.len() == POINTER_SLOTS,
        s.owner is Pointer,
        s.active_step == 0,
        live_y[s.owner->Pointer_0 as int] == s.last_y,
    ensures
        sample_slot(s, live_y).active_step == 0,
        s.water_level > 0 ==> sample_slot(s, live_y).water_level == if s.water_level > DRAIN_PER_TICK {
            s.water_level - DRAIN_PER_TICK
        } else {
            0
        },
        s.water_level < 0 ==> sample_slot(s, live_y).water_level == if s.water_level < -DRAIN_PER_TICK {
            s.water_level + DRAIN_PER_TICK
        } else {
            0
        },
        s.water_level == 0 ==> sample_slot(s, live_y).water_level == 0,
        s.water_level > 0 ==> 0 <= sample_slot(s, live_y).water_level < s.water_level,
        s.water_level < 0 ==> s.water_level < sample_slot(s, live_y).water_level <= 0,
{
}

/// A running animation counts down one frame per tick and nothing else
/// changes until it ends: after `j` ticks of an animation with `k` frames
/// left, `k - j` remain. When it ends, a slot whose finger was lifted is
/// free; any other keeps its pointer.
pub proof fn lemma_animation_countdown(s: FlickPool, live_y: Seq<i32>, j: nat)
    requires
        slot_wf(s),
        s.active_step > 0,
        j <= s.active_step,
    ensures
        sample_slot_n(s, live_y, j).active_step == s.active_step - j,
        sample_slot_n(s, live_y, j).is_up == s.is_up,
        j < s.active_step ==> sample_slot_n(s, live_y, j).owner == s.owner,
        j == s.active_step ==> sample_slot_n(s, live_y, j).owner == if s.owner == SlotOwner::PendingRelease {
            SlotOwner::Free
        } else {
            s.owner
        },
    decreases j,
{
    if j > 0 {
        let t = sample_slot(s, live_y);
        if j > 1 {
            lemma_animation_countdown(t, live_y, (j - 1) as nat);
        } else {
            assert(sample_slot_n(t, live_y, 0) == t);
        }
    }
}

/// An upward flick: once the drained water level reaches the threshold, one
/// animation of `TOTAL_ANIM_FRAMES` frames starts and the level is reset. It
/// runs for exactly that many ticks (no second flick starts meanwhile), and
/// then the slot, still held by its pointer, tracks movement again.
pub proof fn lemma_upward_flick(s: FlickPool, live_y: Seq<i32>)
    requires
        slot_wf(s),
        live_y.len() == POINTER_SLOTS,
        s.owner is Pointer,
        s.active_step == 0,
        leak(s.water_level + (live_y[s.owner->Pointer_0 as int] - s.last_y)) >= FLICK_THRESHOLD,
    ensures
        sample_slot(s, live_y).active_step == TOTAL_ANIM_FRAMES,
        sample_slot(s, live_y).is_up,
        sample_slot(s, live_y).water_level == 0,
        sample_slot(s, live_y).owner == s.owner,
        forall|j: nat|
            j < TOTAL_ANIM_FRAMES ==> #[trigger] sample_slot_n(sample_slot(s, live_y), live_y, j).active_step > 0,
        sample_slot_n(sample_slot(s, live_y), live_y, TOTAL_ANIM_FRAMES as nat).active_step == 0,
        sample_slot_n(sample_slot(s, live_y), live_y, TOTAL_ANIM_FRAMES as nat).owner == s.owner,
{
    let t = sample_slot(s, live_y);
    assert forall|j: nat| j < TOTAL_ANIM_FRAMES implies #[trigger] sample_slot_n(t, live_y, j).active_step > 0 by {
        lemma_animation_countdown(t, live_y, j);
    }
    lemma_animation_countdown(t, live_y, TOTAL_ANIM_FRAMES as nat);
}

/// Every slot of a pool valid.
pub open spec fn pool_wf(slots: Seq<FlickPool>) -> bool {
    &&& slots.len() == POINTER_SLOTS
    &&& forall|j: int| 0 <= j < slots.len() ==> slot_wf(#[trigger] slots[j])
}

/// Number of sampling passes among the first `m` steps of a run.
pub open spec fn samples_before(sampled: Seq<bool>, m: int) -> int
    decreases m,
{
    if m <= 0 {
        0
    } else {
        samples_before(sampled, m - 1) + if sampled[m - 1] { 1int } else { 0int }
    }
}

/// One step of a detector's run, from slots `s0` to slots `s1`: a sampling
/// pass that sees the positions `live_y`, or a touch event, which keeps the
/// frame counts (as touch-down, touch-move and touch-up all do).
pub open spec fn detector_step(s0: Seq<FlickPool>, s1: Seq<FlickPool>, live_y: Seq<i32>, sampled: bool) -> bool {
    if sampled {
        s1 == s0.map_values(|s: FlickPool| sample_slot(s, live_y))
    } else {
        frames_kept(s0, s1)
    }
}

/// An animation lasts exactly as many sampling passes as it has frames left,
/// whatever touch events come between them: after `p` passes it has `p`
/// fewer frames and keeps its direction, and once they are all spent the
/// slot is no longer waiting for release (freed, or back to its pointer).
pub proof fn lemma_animation_span_with_touches(
    trace: Seq<Seq<FlickPool>>,
    lives: Seq<Seq<i32>>,
    sampled: Seq<bool>,
    i: int,
    m: int,
)
    requires
        trace.len() == sampled.len() + 1,
        lives.len() == sampled.len(),
        0 <= m < trace.len(),
        0 <= i < POINTER_SLOTS,
        forall|k: int| 0 <= k < trace.len() ==> pool_wf(#[trigger] trace[k]),
        forall|k: int|
            0 <= k < sampled.len() ==> detector_step(#[trigger] trace[k], trace[k + 1], lives[k], sampled[k]),
        samples_before(sampled, m) <= trace[0][i].active_step,
    ensures
        trace[m][i].active_step == trace[0][i].active_step - samples_before(sampled, m),
        samples_before(sampled, m) < trace[0][i].active_step ==> trace[m][i].is_up == trace[0][i].is_up,
        samples_before(sampled, m) == trace[0][i].active_step ==> trace[m][i].owner != SlotOwner::PendingRelease,
    decreases m,
{
    if m > 0 {
        lemma_animation_span_with_touches(trace, lives, sampled, i, m - 1);
        let k = m - 1;
        assert(pool_wf(trace[k]));
        assert(pool_wf(trace[m]));
        assert(detector_step(trace[k], trace[k + 1], lives[k], sampled[k]));
        assert(slot_wf(trace[m][i]));
        if sampled[k] {
            assert(trace[m][i] == sample_slot(trace[k][i], lives[k]));
        }
    }
}

} // verus!
