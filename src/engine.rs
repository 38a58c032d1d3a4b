use vstd::prelude::*;

use crate::air::{AirMode, air_mode_of, air_status, next_mickey_frame, get_air_packet};
use crate::flick::{FlickDetector, FlickPool, SlotOwner, process_flick_sampling, sample_slot, status_byte};
use crate::packet::{PacketKind, CARD_LEN, kind_of_code, packet_bytes, encode_packet};

verus! {

/// Time a handshake may take before it is given up.
pub const SYNC_TIMEOUT_NS: u64 = 500_000_000;

/// Time between two sampling passes of the flick detector.
pub const SAMPLE_INTERVAL_NS: u64 = 1_600_000;

/// Time between two packets unless configured otherwise.
pub const DEFAULT_TICK_INTERVAL_NS: u64 = 2_000_000;

/// Host code of the packet kind sent by default (buttons).
pub const DEFAULT_PACKET_KIND: u32 = 16;

/// Host code of the card packet kind.
pub const CARD_KIND_CODE: u32 = 48;

/// Host code of the default air mode (passthrough).
pub const DEFAULT_AIR_MODE: u32 = 1;

/// State of the connection with the remote side.
#[derive(Clone, Copy, Debug, PartialEq, Eq, Structural)]
pub enum ConnectionState {
    Disconnected,
    Active,
    /// A handshake is in progress.
    Syncing,
}

/// The code of a state as the host sees it.
pub open spec fn state_code(s: ConnectionState) -> u32 {
    match s {
        ConnectionState::Disconnected => 0,
        ConnectionState::Active => 1,
        ConnectionState::Syncing => 2,
    }
}

/// The other of the two settled states.
pub open spec fn opposite(s: ConnectionState) -> ConnectionState {
    if s == ConnectionState::Active {
        ConnectionState::Disconnected
    } else {
        ConnectionState::Active
    }
}

/// The handshake in progress: where the connection is heading, and until
/// when a confirmation is awaited.
#[derive(Clone, Copy, Debug)]
pub struct SyncHandshake {
    pub target: ConnectionState,
    pub deadline: Option<u64>,
}

/// Values the host sets, sent in the packets.
pub struct PayloadState {
    /// Host code of the packet kind sent while active.
    pub packet_kind: u32,
    pub button_mask: u32,
    /// Last air status byte, set by the host or by the flick detector.
    pub air_byte: u32,
    pub slider_mask: u32,
    /// Kept for the host; no packet carries it.
    pub handshake_scratch: u32,
    pub card: Vec<u8>,
    pub air_mode: AirMode,
    pub mickey_on: bool,
}

/// The whole state of the controller. The host owns it, calls its setters,
/// and calls `tick` in a loop, sending the bytes that come back.
pub struct Engine {
    pub state: ConnectionState,
    pub handshake: SyncHandshake,
    pub protocol_variant: bool,
    pub interval_ns: u64,
    pub payload: PayloadState,
    /// Counter of the cosmetic air animation.
    pub mickey_frame: u32,
    pub last_send_ns: u64,
    pub last_sample_ns: u64,
    pub flick: FlickDetector,
}

/// The engine as plain values.
pub ghost struct EngineView {
    pub state: ConnectionState,
    pub target: ConnectionState,
    pub deadline: Option<u64>,
    pub protocol_variant: bool,
    pub interval_ns: u64,
    pub packet_kind: u32,
    pub button_mask: u32,
    pub air_byte: u32,
    pub slider_mask: u32,
    pub handshake_scratch: u32,
    pub card: Seq<u8>,
    pub air_mode: AirMode,
    pub mickey_on: bool,
    pub mickey_frame: u32,
    pub last_send_ns: u64,
    pub last_sample_ns: u64,
    pub pools: Seq<FlickPool>,
    pub live_y: Seq<i32>,
}

impl View for Engine {
    type V = EngineView;

    open spec fn view(&self) -> EngineView {
        EngineView {
            state: self.state,
            target: self.handshake.target,
            deadline: self.handshake.deadline,
            protocol_variant: self.protocol_variant,
            interval_ns: self.interval_ns,
            packet_kind: self.payload.packet_kind,
            button_mask: self.payload.button_mask,
            air_byte: self.payload.air_byte,
            slider_mask: self.payload.slider_mask,
            handshake_scratch: self.payload.handshake_scratch,
            card: self.payload.card@,
            air_mode: self.payload.air_mode,
            mickey_on: self.payload.mickey_on,
            mickey_frame: self.mickey_frame,
            last_send_ns: self.last_send_ns,
            last_sample_ns: self.last_sample_ns,
            pools: self.flick.pools@,
            live_y: self.flick.live_y@,
        }
    }
}

/// The handshake part of the engine's invariant: a deadline is set exactly
/// while syncing, and the target is a settled state.
pub open spec fn sync_wf(v: EngineView) -> bool {
    &&& (v.state == ConnectionState::Syncing <==> v.deadline is Some)
    &&& v.target != ConnectionState::Syncing
}

/// Toggle: flips between disconnected and active; ignored while syncing.
pub open spec fn toggle_connection_view(v: EngineView) -> EngineView {
    if v.state == ConnectionState::Syncing {
        v
    } else {
        EngineView { state: opposite(v.state), ..v }
    }
}

/// The deadline of a handshake started at `now` (the latest time when that
/// sum does not fit).
pub open spec fn deadline_after(now: u64) -> u64 {
    if now + SYNC_TIMEOUT_NS > u64::MAX {
        u64::MAX
    } else {
        (now + SYNC_TIMEOUT_NS) as u64
    }
}

/// Starting a handshake: ignored while syncing; otherwise the opposite of
/// the current state becomes the target, a deadline is armed, and the
/// connection is syncing.
pub open spec fn toggle_sync_view(v: EngineView, now: u64) -> EngineView {
    if v.state == ConnectionState::Syncing {
        v
    } else {
        EngineView {
            state: ConnectionState::Syncing,
            target: opposite(v.state),
            deadline: Some(deadline_after(now)),
            ..v
        }
    }
}

/// A handshake reply: two bytes, the first with bit 6 set (sent by the
/// remote side) and bits 5-4 clear (kind handshake).
pub open spec fn is_handshake_reply(d: Seq<u8>) -> bool {
    &&& d.len() == 2
    &&& (d[0] / 64) % 2 == 1
    &&& (d[0] / 16) % 4 == 0
}

/// The state a reply confirms: bit 4 of its second byte.
pub open spec fn reply_confirm(d: Seq<u8>) -> u32 {
    ((d[1] / 16) % 2) as u32
}

/// One received datagram: while syncing, a reply that confirms the target
/// settles the connection there and clears the deadline. Anything else is
/// ignored.
pub open spec fn reply_view(v: EngineView, d: Seq<u8>) -> EngineView {
    if v.state == ConnectionState::Syncing && is_handshake_reply(d) && reply_confirm(d) == state_code(
        v.target,
    ) {
        EngineView { state: v.target, deadline: None, ..v }
    } else {
        v
    }
}

/// The first `n` of the datagrams `ds`, in order.
pub open spec fn replies_view(v: EngineView, ds: Seq<Seq<u8>>, n: int) -> EngineView
    decreases n,
{
    if n <= 0 {
        v
    } else {
        reply_view(replies_view(v, ds, n - 1), ds[n - 1])
    }
}

/// The timeout: while syncing past the deadline, the connection falls back
/// to the opposite of the target, and the deadline is cleared.
pub open spec fn timeout_view(v: EngineView, now: u64) -> EngineView {
    if v.state == ConnectionState::Syncing && v.deadline is Some && now > v.deadline->0 {
        EngineView { state: opposite(v.target), deadline: None, ..v }
    } else {
        v
    }
}

/// Whether `interval` has passed from `last` to `now`.
pub open spec fn due(last: u64, now: u64, interval: u64) -> bool {
    now >= last + interval
}

/// A sampling pass of the flick detector when one is due: the slots advance
/// and the status byte becomes the stored air byte.
pub open spec fn sample_view(v: EngineView, now: u64) -> EngineView {
    if due(v.last_sample_ns, now, SAMPLE_INTERVAL_NS) {
        EngineView {
            pools: v.pools.map_values(|s: FlickPool| sample_slot(s, v.live_y)),
            air_byte: status_byte(v.pools, v.mickey_on) as u32,
            last_sample_ns: now,
            ..v
        }
    } else {
        v
    }
}

/// The packet to send from state `v`: none while disconnected, a handshake
/// packet while syncing, and the configured kind while active.
pub open spec fn outgoing(v: EngineView) -> Option<Seq<u8>> {
    let kind = if v.state == ConnectionState::Syncing {
        PacketKind::Handshake
    } else {
        kind_of_code(v.packet_kind)
    };
    if v.state == ConnectionState::Disconnected {
        None
    } else {
        Some(
            packet_bytes(
                kind,
                v.protocol_variant,
                v.target == ConnectionState::Active,
                v.button_mask,
                air_status(v.air_mode, v.mickey_on, v.air_byte as u8, v.mickey_frame),
                v.slider_mask,
                v.card,
            ),
        )
    }
}

/// Whether the packet sent from `v` is an air packet.
pub open spec fn sends_air(v: EngineView) -> bool {
    v.state == ConnectionState::Active && kind_of_code(v.packet_kind) == PacketKind::Air
}

/// The state after the packet of `v` is built: only an air packet moves the
/// animation counter.
pub open spec fn built_view(v: EngineView) -> EngineView {
    if sends_air(v) {
        EngineView { mickey_frame: next_mickey_frame(v.air_mode, v.mickey_on, v.mickey_frame), ..v }
    } else {
        v
    }
}

/// The send step: when the interval has passed, the clock of the last send
/// is reset (also while disconnected) and the packet is built.
pub open spec fn send_view(v: EngineView, now: u64) -> EngineView {
    if due(v.last_send_ns, now, v.interval_ns) {
        built_view(EngineView { last_send_ns: now, ..v })
    } else {
        v
    }
}

/// What the send step hands out.
pub open spec fn send_bytes(v: EngineView, now: u64) -> Option<Seq<u8>> {
    if due(v.last_send_ns, now, v.interval_ns) {
        outgoing(v)
    } else {
        None
    }
}

/// A pass of the transmission loop up to the send step: sampling, the
/// received datagrams `ds` in order, and the timeout check.
pub open spec fn before_send_view(v: EngineView, now: u64, ds: Seq<Seq<u8>>) -> EngineView {
    timeout_view(replies_view(sample_view(v, now), ds, ds.len() as int), now)
}

/// A whole pass of the transmission loop at `now`.
pub open spec fn tick_view(v: EngineView, now: u64, ds: Seq<Seq<u8>>) -> EngineView {
    send_view(before_send_view(v, now, ds), now)
}

/// The first `n` passes of a run, the `k`-th at `times[k]` with the
/// datagrams `batches[k]`.
pub open spec fn passes_view(v: EngineView, times: Seq<u64>, batches: Seq<Seq<Seq<u8>>>, n: int) -> EngineView
    decreases n,
{
    if n <= 0 {
        v
    } else {
        tick_view(passes_view(v, times, batches, n - 1), times[n - 1], batches[n - 1])
    }
}

/// Whether `d` is a handshake reply that confirms `target`.
pub open spec fn confirms(d: Seq<u8>, target: ConnectionState) -> bool {
    is_handshake_reply(d) && reply_confirm(d) == state_code(target)
}

/// The bytes of an optional packet.
pub open spec fn bytes_of(r: Option<Vec<u8>>) -> Option<Seq<u8>> {
    match r {
        Some(b) => Some(b@),
        None => None,
    }
}

impl Engine {
    pub open spec fn wf(&self) -> bool {
        &&& sync_wf(self@)
        &&& self.payload.card@.len() == CARD_LEN
        &&& self.flick.wf()
    }

    /// A disconnected engine with the default settings, an all-zero card,
    /// and every detector slot free.
    pub fn new() -> (r: Engine)
        ensures
            r.wf(),
            r@.state == ConnectionState::Disconnected,
            r@.deadline is None,
            r@.protocol_variant == false,
            r@.interval_ns == DEFAULT_TICK_INTERVAL_NS,
            r@.packet_kind == DEFAULT_PACKET_KIND,
            r@.button_mask == 0 && r@.air_byte == 0 && r@.slider_mask == 0,
            r@.card == Seq::new(CARD_LEN as nat, |i: int| 0u8),
            r@.air_mode == air_mode_of(DEFAULT_AIR_MODE),
            !r@.mickey_on,
            r@.mickey_frame == 0,
            r@.target == ConnectionState::Disconnected,
            r@.handshake_scratch == 0,
            r@.last_send_ns == 0 && r@.last_sample_ns == 0,
            forall|i: int| 0 <= i < r@.pools.len() ==> (#[trigger] r@.pools[i]).owner == SlotOwner::Free
                && r@.pools[i].water_level == 0 && r@.pools[i].active_step == 0,
            forall|i: int| 0 <= i < r@.live_y.len() ==> #[trigger] r@.live_y[i] == 0,
    {
        let mut card: Vec<u8> = Vec::new();
        let mut i: usize = 0;
        while i < CARD_LEN
            invariant
                i <= CARD_LEN,
                card@ =~= Seq::new(i as nat, |i: int| 0u8),
            decreases CARD_LEN - i,
        {
            card.push(0);
            i += 1;
        }
        Engine {
            state: ConnectionState::Disconnected,
            handshake: SyncHandshake { target: ConnectionState::Disconnected, deadline: None },
            protocol_variant: false,
            interval_ns: DEFAULT_TICK_INTERVAL_NS,
            payload: PayloadState {
                packet_kind: DEFAULT_PACKET_KIND,
                button_mask: 0,
                air_byte: 0,
                slider_mask: 0,
                handshake_scratch: 0,
                card,
                air_mode: AirMode::from_code(DEFAULT_AIR_MODE),
                mickey_on: false,
            },
            mickey_frame: 0,
            last_send_ns: 0,
            last_sample_ns: 0,
            flick: FlickDetector::new(),
        }
    }

    /// The connection state as the host sees it: 0, 1 or 2.
    pub fn connection_state(&self) -> (r: u32)
        ensures
            r == state_code(self.state),
    {
        match self.state {
            ConnectionState::Disconnected => 0,
            ConnectionState::Active => 1,
            ConnectionState::Syncing => 2,
        }
    }

    /// Flips between disconnected and active; ignored while syncing.
    pub fn toggle_connection(&mut self)
        requires
            old(self).wf(),
        ensures
            final(self).wf(),
            final(self)@ == toggle_connection_view(old(self)@),
    {
        match self.state {
            ConnectionState::Disconnected => self.state = ConnectionState::Active,
            ConnectionState::Active => self.state = ConnectionState::Disconnected,
            ConnectionState::Syncing => {},
        }
    }

    /// Starts a handshake at time `now` toward the opposite of the current
    /// state; ignored while syncing.
    pub fn toggle_sync(&mut self, now: u64)
        requires
            old(self).wf(),
        ensures
            final(self).wf(),
            final(self)@ == toggle_sync_view(old(self)@, now),
    {
        let target = match self.state {
            ConnectionState::Syncing => {
                return;
            },
            ConnectionState::Active => ConnectionState::Disconnected,
            ConnectionState::Disconnected => ConnectionState::Active,
        };
        let deadline = now.saturating_add(SYNC_TIMEOUT_NS);
        self.handshake = SyncHandshake { target, deadline: Some(deadline) };
        self.state = ConnectionState::Syncing;
    }

    /// Handles one received datagram (see `reply_view`).
    pub fn handle_reply(&mut self, d: &Vec<u8>)
        requires
            old(self).wf(),
        ensures
            final(self).wf(),
            final(self)@ == reply_view(old(self)@, d@),
    {
        if self.state == ConnectionState::Syncing && d.len() == 2 {
            let header = d[0];
            let payload = d[1];
            let from_remote = (header / 64) % 2 == 1;
            let is_handshake = (header / 16) % 4 == 0;
            let confirm: u32 = ((payload / 16) % 2) as u32;
            let target: u32 = match self.handshake.target {
                ConnectionState::Disconnected => 0,
                ConnectionState::Active => 1,
                ConnectionState::Syncing => 2,
            };
            if from_remote && is_handshake && confirm == target {
                self.state = self.handshake.target;
                self.handshake.deadline = None;
            }
        }
    }

    /// Falls back when the handshake's deadline has passed at `now` (see
    /// `timeout_view`).
    pub fn check_sync_timeout(&mut self, now: u64)
        requires
            old(self).wf(),
        ensures
            final(self).wf(),
            final(self)@ == timeout_view(old(self)@, now),
    {
        if self.state == ConnectionState::Syncing {
            if let Some(deadline) = self.handshake.deadline {
                if now > deadline {
                    self.state = if self.handshake.target == ConnectionState::Active {
                        ConnectionState::Disconnected
                    } else {
                        ConnectionState::Active
                    };
                    self.handshake.deadline = None;
                }
            }
        }
    }
    /// Builds the packet for the current state (see `outgoing`); only an air
    /// packet moves the animation counter.
    pub fn build_packet(&mut self) -> (r: Option<Vec<u8>>)
        requires
            old(self).wf(),
        ensures
            final(self).wf(),
            bytes_of(r) == outgoing(old(self)@),
            final(self)@ == built_view(old(self)@),
    {
        let kind = match self.state {
            ConnectionState::Disconnected => {
                return None;
            },
            ConnectionState::Syncing => PacketKind::Handshake,
            ConnectionState::Active => PacketKind::from_code(self.payload.packet_kind),
        };
        let air = if kind == PacketKind::Air && self.state == ConnectionState::Active {
            get_air_packet(
                self.payload.air_mode,
                self.payload.mickey_on,
                self.payload.air_byte as u8,
                &mut self.mickey_frame,
            )
        } else {
            0
        };
        let bytes = encode_packet(
            kind,
            self.protocol_variant,
            self.handshake.target == ConnectionState::Active,
            self.payload.button_mask,
            air,
            self.payload.slider_mask,
            &self.payload.card,
        );
        proof {
            let v = old(self)@;
            if kind != PacketKind::Air {
                assert(packet_bytes(kind, v.protocol_variant, v.target == ConnectionState::Active,
                    v.button_mask, air, v.slider_mask, v.card) == packet_bytes(kind, v.protocol_variant,
                    v.target == ConnectionState::Active, v.button_mask,
                    air_status(v.air_mode, v.mickey_on, v.air_byte as u8, v.mickey_frame),
                    v.slider_mask, v.card));
            }
        }
        Some(bytes)
    }

    /// Runs a sampling pass of the flick detector when one is due at `now`
    /// (see `sample_view`).
    pub fn sample_if_due(&mut self, now: u64)
        requires
            old(self).wf(),
        ensures
            final(self).wf(),
            final(self)@ == sample_view(old(self)@, now),
    {
        if now >= self.last_sample_ns && now - self.last_sample_ns >= SAMPLE_INTERVAL_NS {
            let byte = process_flick_sampling(&mut self.flick, self.payload.mickey_on);
            self.payload.air_byte = byte as u32;
            self.last_sample_ns = now;
            assert(self@ == sample_view(old(self)@, now));
        }
    }

    /// Builds the packet when the send interval has passed at `now` (see
    /// `send_view` and `send_bytes`).
    pub fn send_if_due(&mut self, now: u64) -> (r: Option<Vec<u8>>)
        requires
            old(self).wf(),
        ensures
            final(self).wf(),
            final(self)@ == send_view(old(self)@, now),
            bytes_of(r) == send_bytes(old(self)@, now),
    {
        if now >= self.last_send_ns && now - self.last_send_ns >= self.interval_ns {
            self.last_send_ns = now;
            self.build_packet()
        } else {
            None
        }
    }

    /// One pass of the transmission loop at time `now`, with the datagrams
    /// received since the last pass: the detector is sampled when due, the
    /// datagrams are handled in order, the handshake timeout is checked,
    /// and a packet is built when the send interval has passed.
    pub fn tick(&mut self, now: u64, inbound: &Vec<Vec<u8>>) -> (r: Option<Vec<u8>>)
        requires
            old(self).wf(),
        ensures
            final(self).wf(),
            final(self)@ == tick_view(old(self)@, now, inbound@.map_values(|d: Vec<u8>| d@)),
            bytes_of(r) == send_bytes(
                before_send_view(old(self)@, now, inbound@.map_values(|d: Vec<u8>| d@)),
                now,
            ),
    {
        self.sample_if_due(now);
        let ghost v0 = self@;
        let ghost ds = inbound@.map_values(|d: Vec<u8>| d@);
        let mut i: usize = 0;
        while i < inbound.len()
            invariant
                self.wf(),
                0 <= i <= inbound@.len(),
                ds == inbound@.map_values(|d: Vec<u8>| d@),
                self@ == replies_view(v0, ds, i as int),
            decreases inbound@.len() - i,
        {
            self.handle_reply(&inbound[i]);
            assert(ds[i as int] == inbound@[i as int]@);
            i += 1;
        }
        self.check_sync_timeout(now);
        self.send_if_due(now)
    }

    /// Sets the protocol variant: variant 1 sets bit 7 of every header.
    pub fn set_config(&mut self, protocol_type: u32)
        requires
            old(self).wf(),
        ensures
            final(self).wf(),
            final(self)@ == (EngineView { protocol_variant: protocol_type == 1, ..old(self)@ }),
    {
        self.protocol_variant = protocol_type == 1;
    }

    /// Sets the time between two packets.
    pub fn set_tick_interval(&mut self, interval_ns: u64)
        requires
            old(self).wf(),
        ensures
            final(self).wf(),
            final(self)@ == (EngineView { interval_ns, ..old(self)@ }),
    {
        self.interval_ns = interval_ns;
    }

    /// Turns the cosmetic mickey flag on or off.
    pub fn set_mickey_enabled(&mut self, enabled: bool)
        requires
            old(self).wf(),
        ensures
            final(self).wf(),
            final(self)@ == (EngineView { mickey_on: enabled, ..old(self)@ }),
    {
        self.payload.mickey_on = enabled;
    }

    /// Stores a card identifier of exactly `CARD_LEN` bytes; any other length
    /// leaves the stored one as it was.
    pub fn set_card(&mut self, card: &Vec<u8>)
        requires
            old(self).wf(),
        ensures
            final(self).wf(),
            card@.len() == CARD_LEN ==> final(self)@ == (EngineView { card: card@, ..old(self)@ }),
            card@.len() != CARD_LEN ==> final(self)@ == old(self)@,
    {
        if card.len() == CARD_LEN {
            self.payload.card = card.clone();
        }
    }

    /// Sets every host field of the payload at once. The card is taken, as
    /// `set_card` takes it, only along with the card packet kind (48).
    pub fn set_state(
        &mut self,
        packet_kind: u32,
        button_mask: u32,
        air_byte: u32,
        slider_mask: u32,
        handshake_scratch: u32,
        card: &Vec<u8>,
        air_mode: u32,
    )
        requires
            old(self).wf(),
        ensures
            final(self).wf(),
            final(self)@ == (EngineView {
                packet_kind,
                button_mask,
                air_byte,
                slider_mask,
                handshake_scratch,
                air_mode: air_mode_of(air_mode),
                card: if packet_kind == CARD_KIND_CODE && card@.len() == CARD_LEN {
                    card@
                } else {
                    old(self)@.card
                },
                ..old(self)@
            }),
    {
        self.payload.packet_kind = packet_kind;
        self.payload.button_mask = button_mask;
        self.payload.air_byte = air_byte;
        self.payload.slider_mask = slider_mask;
        self.payload.handshake_scratch = handshake_scratch;
        self.payload.air_mode = AirMode::from_code(air_mode);
        if packet_kind == CARD_KIND_CODE {
            self.set_card(card);
        }
    }
}

/// A handshake that gets no confirming reply before its deadline leaves the
/// connection where it was before the handshake started, with no deadline.
pub proof fn lemma_sync_timeout_reverts(v: EngineView, start: u64, now: u64)
    requires
        sync_wf(v),
        v.state != ConnectionState::Syncing,
        now > start + SYNC_TIMEOUT_NS,
    ensures
        timeout_view(toggle_sync_view(v, start), now).state == v.state,
        timeout_view(toggle_sync_view(v, start), now).deadline is None,
{
}

/// The same holds whatever datagrams arrive meanwhile, as long as none of
/// them is a handshake reply that confirms the target.
pub proof fn lemma_sync_timeout_reverts_despite_noise(v: EngineView, start: u64, ds: Seq<Seq<u8>>, now: u64)
    requires
        sync_wf(v),
        v.state != ConnectionState::Syncing,
        now > start + SYNC_TIMEOUT_NS,
        forall|i: int|
            0 <= i < ds.len() ==> !(is_handshake_reply(#[trigger] ds[i]) && reply_confirm(ds[i]) == state_code(
                opposite(v.state),
            )),
    ensures
        timeout_view(replies_view(toggle_sync_view(v, start), ds, ds.len() as int), now).state == v.state,
        timeout_view(replies_view(toggle_sync_view(v, start), ds, ds.len() as int), now).deadline is None,
{
    let w = toggle_sync_view(v, start);
    assert forall|n: int| 0 <= n <= ds.len() implies #[trigger] replies_view(w, ds, n) == w by {
        lemma_replies_unchanged(w, ds, n, opposite(v.state));
    }
}

proof fn lemma_replies_unchanged(w: EngineView, ds: Seq<Seq<u8>>, n: int, target: ConnectionState)
    requires
        0 <= n <= ds.len(),
        w.target == target,
        forall|i: int|
            0 <= i < ds.len() ==> !(is_handshake_reply(#[trigger] ds[i]) && reply_confirm(ds[i]) == state_code(
                target,
            )),
    ensures
        replies_view(w, ds, n) == w,
    decreases n,
{
    if n > 0 {
        lemma_replies_unchanged(w, ds, n - 1, target);
    }
}

/// A handshake reply that confirms the requested target settles the
/// connection there and clears the deadline, and the timeout check that
/// follows in the same pass, or in any later one, leaves it so.
pub proof fn lemma_sync_reply_commits(v: EngineView, start: u64, d: Seq<u8>, now: u64)
    requires
        sync_wf(v),
        v.state != ConnectionState::Syncing,
        is_handshake_reply(d),
        reply_confirm(d) == state_code(opposite(v.state)),
    ensures
        reply_view(toggle_sync_view(v, start), d).state == opposite(v.state),
        reply_view(toggle_sync_view(v, start), d).deadline is None,
        timeout_view(reply_view(toggle_sync_view(v, start), d), now) == reply_view(toggle_sync_view(v, start), d),
{
}

/// While syncing, a batch of datagrams either leaves the state alone (none
/// confirms the target) or settles it on the target with no deadline.
proof fn lemma_replies_while_syncing(v: EngineView, ds: Seq<Seq<u8>>, n: int)
    requires
        v.state == ConnectionState::Syncing,
        0 <= n <= ds.len(),
    ensures
        (forall|j: int| 0 <= j < n ==> !confirms(#[trigger] ds[j], v.target)) ==> replies_view(v, ds, n) == v,
        (exists|j: int| 0 <= j < n && confirms(#[trigger] ds[j], v.target)) ==> replies_view(v, ds, n) == (
        EngineView { state: v.target, deadline: None, ..v }),
    decreases n,
{
    if n > 0 {
        lemma_replies_while_syncing(v, ds, n - 1);
    }
}

/// A settled connection stays settled through any pass.
proof fn lemma_tick_settled(v: EngineView, now: u64, ds: Seq<Seq<u8>>)
    requires
        v.state != ConnectionState::Syncing,
        v.deadline is None,
    ensures
        tick_view(v, now, ds).state == v.state,
        tick_view(v, now, ds).deadline is None,
        tick_view(v, now, ds).target == v.target,
{
    let w = sample_view(v, now);
    assert forall|n: int| 0 <= n <= ds.len() implies #[trigger] replies_view(w, ds, n) == w by {
        lemma_replies_inert(w, ds, n);
    }
}

proof fn lemma_replies_inert(w: EngineView, ds: Seq<Seq<u8>>, n: int)
    requires
        w.state != ConnectionState::Syncing,
        0 <= n <= ds.len(),
    ensures
        replies_view(w, ds, n) == w,
    decreases n,
{
    if n > 0 {
        lemma_replies_inert(w, ds, n - 1);
    }
}

/// One pass while syncing toward `target` with deadline `d`: a confirming
/// datagram settles on the target; otherwise the pass falls back to the
/// opposite of the target when `now` is past `d`, and else changes nothing
/// of the handshake.
proof fn lemma_tick_syncing(v: EngineView, now: u64, ds: Seq<Seq<u8>>)
    requires
        sync_wf(v),
        v.state == ConnectionState::Syncing,
    ensures
        tick_view(v, now, ds).target == v.target,
        (exists|j: int| 0 <= j < ds.len() && confirms(#[trigger] ds[j], v.target)) ==> tick_view(v, now, ds).state
            == v.target && tick_view(v, now, ds).deadline is None,
        (forall|j: int| 0 <= j < ds.len() ==> !confirms(#[trigger] ds[j], v.target)) ==> if now > v.deadline->0 {
            tick_view(v, now, ds).state == opposite(v.target) && tick_view(v, now, ds).deadline is None
        } else {
            tick_view(v, now, ds).state == v.state && tick_view(v, now, ds).deadline == v.deadline
        },
{
    lemma_replies_while_syncing(sample_view(v, now), ds, ds.len() as int);
}

/// A handshake that no datagram confirms falls back, at the first pass past
/// its deadline, to the state the connection had before it started, and
/// stays there with no deadline through every later pass.
pub proof fn lemma_sync_timeout_reverts_over_passes(
    v: EngineView,
    start: u64,
    times: Seq<u64>,
    batches: Seq<Seq<Seq<u8>>>,
    late: int,
    n: int,
)
    requires
        sync_wf(v),
        v.state != ConnectionState::Syncing,
        times.len() == batches.len(),
        0 <= late < n <= times.len(),
        times[late] > start + SYNC_TIMEOUT_NS,
        forall|k: int, j: int|
            0 <= k < batches.len() && 0 <= j < batches[k].len() ==> !confirms(
                #[trigger] batches[k][j],
                opposite(v.state),
            ),
    ensures
        passes_view(toggle_sync_view(v, start), times, batches, n).state == v.state,
        passes_view(toggle_sync_view(v, start), times, batches, n).deadline is None,
{
    lemma_sync_run(v, start, times, batches, n);
    assert(late < n);
}

/// The handshake during a run without confirming datagrams: syncing
/// unchanged while no pass was past the deadline, settled back afterwards.
proof fn lemma_sync_run(v: EngineView, start: u64, times: Seq<u64>, batches: Seq<Seq<Seq<u8>>>, n: int)
    requires
        sync_wf(v),
        v.state != ConnectionState::Syncing,
        times.len() == batches.len(),
        0 <= n <= times.len(),
        forall|k: int, j: int|
            0 <= k < batches.len() && 0 <= j < batches[k].len() ==> !confirms(
                #[trigger] batches[k][j],
                opposite(v.state),
            ),
    ensures
        passes_view(toggle_sync_view(v, start), times, batches, n).target == opposite(v.state),
        (forall|k: int| 0 <= k < n ==> times[k] <= deadline_after(start)) ==> passes_view(
            toggle_sync_view(v, start),
            times,
            batches,
            n,
        ).state == ConnectionState::Syncing && passes_view(toggle_sync_view(v, start), times, batches, n).deadline
            == Some(deadline_after(start)),
        (exists|k: int| 0 <= k < n && times[k] > deadline_after(start)) ==> passes_view(
            toggle_sync_view(v, start),
            times,
            batches,
            n,
        ).state == v.state && passes_view(toggle_sync_view(v, start), times, batches, n).deadline is None,
    decreases n,
{
    let w0 = toggle_sync_view(v, start);
    if n > 0 {
        lemma_sync_run(v, start, times, batches, n - 1);
        let prev = passes_view(w0, times, batches, n - 1);
        let ds = batches[n - 1];
        assert forall|j: int| 0 <= j < ds.len() implies !confirms(#[trigger] ds[j], prev.target) by {
            assert(!confirms(batches[n - 1][j], opposite(v.state)));
        }
        if prev.state == ConnectionState::Syncing {
            lemma_tick_syncing(prev, times[n - 1], ds);
        } else {
            lemma_tick_settled(prev, times[n - 1], ds);
        }
    }
}

/// A handshake reply that confirms the requested target, received in a pass
/// that comes before any pass past the deadline, settles the connection on
/// the target with no deadline, and it stays there through every later pass:
/// the fallback never applies.
pub proof fn lemma_sync_reply_commits_over_passes(
    v: EngineView,
    start: u64,
    times: Seq<u64>,
    batches: Seq<Seq<Seq<u8>>>,
    reply_pass: int,
    reply: int,
    n: int,
)
    requires
        sync_wf(v),
        v.state != ConnectionState::Syncing,
        times.len() == batches.len(),
        0 <= reply_pass < n <= times.len(),
        forall|k: int| 0 <= k < reply_pass ==> #[trigger] times[k] <= start + SYNC_TIMEOUT_NS,
        0 <= reply < batches[reply_pass].len(),
        confirms(batches[reply_pass][reply], opposite(v.state)),
    ensures
        passes_view(toggle_sync_view(v, start), times, batches, n).state == opposite(v.state),
        passes_view(toggle_sync_view(v, start), times, batches, n).deadline is None,
{
    lemma_commit_run(v, start, times, batches, reply_pass, reply, n);
}

/// The handshake during such a run: syncing or already settled on the target
/// up to the reply's pass, settled on it from then on.
proof fn lemma_commit_run(
    v: EngineView,
    start: u64,
    times: Seq<u64>,
    batches: Seq<Seq<Seq<u8>>>,
    reply_pass: int,
    reply: int,
    n: int,
)
    requires
        sync_wf(v),
        v.state != ConnectionState::Syncing,
        times.len() == batches.len(),
        0 <= reply_pass < times.len(),
        0 <= n <= times.len(),
        forall|k: int| 0 <= k < reply_pass ==> #[trigger] times[k] <= start + SYNC_TIMEOUT_NS,
        0 <= reply < batches[reply_pass].len(),
        confirms(batches[reply_pass][reply], opposite(v.state)),
    ensures
        passes_view(toggle_sync_view(v, start), times, batches, n).target == opposite(v.state),
        n <= reply_pass ==> (passes_view(toggle_sync_view(v, start), times, batches, n).state
            == ConnectionState::Syncing && passes_view(toggle_sync_view(v, start), times, batches, n).deadline
            == Some(deadline_after(start))) || (passes_view(toggle_sync_view(v, start), times, batches, n).state
            == opposite(v.state) && passes_view(toggle_sync_view(v, start), times, batches, n).deadline is None),
        n > reply_pass ==> passes_view(toggle_sync_view(v, start), times, batches, n).state == opposite(v.state)
            && passes_view(toggle_sync_view(v, start), times, batches, n).deadline is None,
    decreases n,
{
    let w0 = toggle_sync_view(v, start);
    if n > 0 {
        lemma_commit_run(v, start, times, batches, reply_pass, reply, n - 1);
        let prev = passes_view(w0, times, batches, n - 1);
        let ds = batches[n - 1];
        if prev.state == ConnectionState::Syncing {
            lemma_tick_syncing(prev, times[n - 1], ds);
            if n - 1 < reply_pass {
                assert(times[n - 1] <= start + SYNC_TIMEOUT_NS);
            } else {
                assert(confirms(ds[reply], prev.target));
            }
        } else {
            lemma_tick_settled(prev, times[n - 1], ds);
        }
    }
}

} // verus!
