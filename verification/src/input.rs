//! Wire format for xCloud's "input" data channel: gamepad, pointer and metadata
//! report packets. Every multi-byte field is little-endian except where noted.
//!
//! The packet header carries an `f64` millisecond timestamp. Its eight bytes are
//! computed by the caller from the same monotonic origin and handed in as they go
//! on the wire; everything else is laid out here.
use vstd::prelude::*;
use crate::video::timing::{FrameTiming, PresentedFrame};

verus! {

/// The low `n` bytes of `v`, least significant first.
#[verifier::opaque]
pub open spec fn le(v: nat, n: nat) -> Seq<u8>
    decreases n,
{
    if n == 0 {
        Seq::empty()
    } else {
        seq![(v % 256) as u8] + le(v / 256, (n - 1) as nat)
    }
}

/// Two's-complement bits of a signed 16-bit value.
pub open spec fn bits16(v: i16) -> nat {
    if v < 0 { (v + 0x1_0000) as nat } else { v as nat }
}

/// Two's-complement bits of a signed 32-bit value.
pub open spec fn bits32(v: i32) -> nat {
    if v < 0 { (v + 0x1_0000_0000) as nat } else { v as nat }
}

/// Appends raw bytes in order.
pub fn push_le<const N: usize>(bytes: &mut Vec<u8>, raw: [u8; N])
    ensures
        final(bytes)@ == old(bytes)@ + raw@,
{
    let mut k: usize = 0;
    while k < N
        invariant
            k <= N,
            raw@.len() == N,
            bytes@ == old(bytes)@ + raw@.take(k as int),
        decreases N - k,
    {
        bytes.push(raw[k]);
        k += 1;
        assert(raw@.take(k as int) =~= raw@.take(k as int - 1).push(raw@[k as int - 1]));
        assert(bytes@ =~= old(bytes)@ + raw@.take(k as int));
    }
    assert(raw@.take(N as int) =~= raw@);
}

fn push_u16(bytes: &mut Vec<u8>, v: u16)
    ensures
        final(bytes)@ == old(bytes)@ + le(v as nat, 2),
{
    bytes.push((v % 256) as u8);
    bytes.push((v / 256) as u8);
    proof {
        reveal_with_fuel(le, 3);
        reveal(le);
        assert(final(bytes)@ =~= old(bytes)@ + le(v as nat, 2));
    }
}

fn push_u32(bytes: &mut Vec<u8>, v: u32)
    ensures
        final(bytes)@ == old(bytes)@ + le(v as nat, 4),
{
    bytes.push((v % 256) as u8);
    bytes.push((v / 256 % 256) as u8);
    bytes.push((v / 65536 % 256) as u8);
    bytes.push((v / 16777216) as u8);
    proof {
        reveal_with_fuel(le, 5);
        reveal(le);
        let n = v as nat;
        assert(n / 256 / 256 == n / 65536) by (nonlinear_arith);
        assert(n / 65536 / 256 == n / 16777216) by (nonlinear_arith);
        assert((n / 16777216) % 256 == n / 16777216);
        assert(final(bytes)@ =~= old(bytes)@ + le(v as nat, 4));
    }
}

fn push_i16(bytes: &mut Vec<u8>, v: i16)
    ensures
        final(bytes)@ == old(bytes)@ + le(bits16(v), 2),
{
    let raw: u16 = if v < 0 { (v as i32 + 0x1_0000) as u16 } else { v as u16 };
    push_u16(bytes, raw);
}

fn push_i32(bytes: &mut Vec<u8>, v: i32)
    ensures
        final(bytes)@ == old(bytes)@ + le(bits32(v), 4),
{
    let raw: u32 = if v < 0 { (v as i64 + 0x1_0000_0000) as u32 } else { v as u32 };
    push_u32(bytes, raw);
}

/// Kinds of report; a packet's type field is the sum of the kinds it carries.
#[derive(Clone, Copy, Debug, PartialEq, Eq, Structural)]
pub enum ReportType {
    NoReport,
    Metadata,
    Gamepad,
    Pointer,
    ClientMetadata,
    ServerMetadata,
}

pub open spec fn report_code(kind: ReportType) -> u16 {
    match kind {
        ReportType::NoReport => 0,
        ReportType::Metadata => 1,
        ReportType::Gamepad => 2,
        ReportType::Pointer => 4,
        ReportType::ClientMetadata => 8,
        ReportType::ServerMetadata => 16,
    }
}

impl ReportType {
    /// The bit of this kind in a packet's type field.
    pub fn code(self) -> (code: u16)
        ensures
            code == report_code(self),
    {
        match self {
            ReportType::NoReport => 0,
            ReportType::Metadata => 1,
            ReportType::Gamepad => 2,
            ReportType::Pointer => 4,
            ReportType::ClientMetadata => 8,
            ReportType::ServerMetadata => 16,
        }
    }
}

/// One gamepad state. Buttons are pressed or not; sticks and triggers are already
/// scaled to the wire's ranges (sticks to `-32767..=32767` with up positive,
/// triggers to `0..=65535`).
#[derive(Clone, Copy, Debug)]
pub struct GamepadFrame {
    pub gamepad_index: u8,
    pub nexus: bool,
    pub menu: bool,
    pub view: bool,
    pub a: bool,
    pub b: bool,
    pub x: bool,
    pub y: bool,
    pub dpad_up: bool,
    pub dpad_down: bool,
    pub dpad_left: bool,
    pub dpad_right: bool,
    pub left_shoulder: bool,
    pub right_shoulder: bool,
    pub left_thumb: bool,
    pub right_thumb: bool,
    pub left_thumb_x: i16,
    pub left_thumb_y: i16,
    pub right_thumb_x: i16,
    pub right_thumb_y: i16,
    pub left_trigger: u16,
    pub right_trigger: u16,
}

pub open spec fn no_buttons() -> GamepadFrame {
    GamepadFrame {
        gamepad_index: 0,
        nexus: false,
        menu: false,
        view: false,
        a: false,
        b: false,
        x: false,
        y: false,
        dpad_up: false,
        dpad_down: false,
        dpad_left: false,
        dpad_right: false,
        left_shoulder: false,
        right_shoulder: false,
        left_thumb: false,
        right_thumb: false,
        left_thumb_x: 0,
        left_thumb_y: 0,
        right_thumb_x: 0,
        right_thumb_y: 0,
        left_trigger: 0,
        right_trigger: 0,
    }
}

impl Default for GamepadFrame {
    fn default() -> (frame: Self)
        ensures
            frame == no_buttons(),
    {
        GamepadFrame {
            gamepad_index: 0,
            nexus: false,
            menu: false,
            view: false,
            a: false,
            b: false,
            x: false,
            y: false,
            dpad_up: false,
            dpad_down: false,
            dpad_left: false,
            dpad_right: false,
            left_shoulder: false,
            right_shoulder: false,
            left_thumb: false,
            right_thumb: false,
            left_thumb_x: 0,
            left_thumb_y: 0,
            right_thumb_x: 0,
            right_thumb_y: 0,
            left_trigger: 0,
            right_trigger: 0,
        }
    }
}

#[verifier::opaque]
pub open spec fn bit(pressed: bool, value: nat) -> nat {
    if pressed { value } else { 0 }
}

/// The button bit field: nexus 2, menu 4, view 8, A 16, B 32, X 64, Y 128, d-pad up,
/// down, left, right 256 to 2048, shoulders 4096 and 8192, thumb clicks 16384 and 32768.
pub open spec fn button_mask(f: GamepadFrame) -> nat {
    bit(f.nexus, 2) + bit(f.menu, 4) + bit(f.view, 8) + bit(f.a, 16) + bit(f.b, 32) + bit(f.x, 64) + bit(f.y, 128)
        + bit(f.dpad_up, 256) + bit(f.dpad_down, 512) + bit(f.dpad_left, 1024) + bit(f.dpad_right, 2048) + bit(
        f.left_shoulder,
        4096,
    ) + bit(f.right_shoulder, 8192) + bit(f.left_thumb, 16384) + bit(f.right_thumb, 32768)
}

/// The 23 bytes of one gamepad: index, buttons, four stick axes, two triggers, then the
/// constant 1 as a little-endian and as a big-endian `u32`.
pub open spec fn gamepad_bytes(f: GamepadFrame) -> Seq<u8> {
    seq![f.gamepad_index] + le(button_mask(f), 2) + le(bits16(f.left_thumb_x), 2) + le(bits16(f.left_thumb_y), 2)
        + le(bits16(f.right_thumb_x), 2) + le(bits16(f.right_thumb_y), 2) + le(f.left_trigger as nat, 2) + le(
        f.right_trigger as nat,
        2,
    ) + le(1, 4) + seq![0u8, 0u8, 0u8, 1u8]
}

pub open spec fn gamepads_bytes(fs: Seq<GamepadFrame>) -> Seq<u8>
    decreases fs.len(),
{
    if fs.len() == 0 {
        Seq::empty()
    } else {
        gamepads_bytes(fs.drop_last()) + gamepad_bytes(fs.last())
    }
}

/// One touch contact.
#[derive(Clone, Copy, Debug)]
pub struct PointerEvent {
    pub contact_major: u16,
    pub contact_minor: u16,
    pub pressure: u8,
    pub twist: u16,
    pub x: i32,
    pub y: i32,
    pub event_type: u8,
}

/// The 20 bytes of one contact (with four reserved zero bytes after the twist).
pub open spec fn pointer_event_bytes(e: PointerEvent) -> Seq<u8> {
    le(e.contact_major as nat, 2) + le(e.contact_minor as nat, 2) + seq![e.pressure] + le(e.twist as nat, 2) + le(0, 4)
        + le(bits32(e.x), 4) + le(bits32(e.y), 4) + seq![e.event_type]
}

pub open spec fn pointer_events_bytes(es: Seq<PointerEvent>) -> Seq<u8>
    decreases es.len(),
{
    if es.len() == 0 {
        Seq::empty()
    } else {
        pointer_events_bytes(es.drop_last()) + pointer_event_bytes(es.last())
    }
}

/// The contacts reported together.
pub struct PointerFrame {
    pub events: Vec<PointerEvent>,
}

impl PointerFrame {
    pub fn new() -> (frame: Self)
        ensures
            frame.events@ == Seq::<PointerEvent>::empty(),
    {
        PointerFrame { events: Vec::new() }
    }
}

impl Default for PointerFrame {
    fn default() -> (frame: Self)
        ensures
            frame.events@ == Seq::<PointerEvent>::empty(),
    {
        PointerFrame::new()
    }
}

fn bit_value(pressed: bool, value: u16) -> (v: u16)
    ensures
        v == bit(pressed, value as nat),
        v <= value,
{
    proof {
        reveal(bit);
    }
    if pressed { value } else { 0 }
}

fn mask_of(f: &GamepadFrame) -> (mask: u16)
    ensures
        mask == button_mask(*f),
{
    bit_value(f.nexus, 2) + bit_value(f.menu, 4) + bit_value(f.view, 8) + bit_value(f.a, 16) + bit_value(f.b, 32)
        + bit_value(f.x, 64) + bit_value(f.y, 128) + bit_value(f.dpad_up, 256) + bit_value(f.dpad_down, 512)
        + bit_value(f.dpad_left, 1024) + bit_value(f.dpad_right, 2048) + bit_value(f.left_shoulder, 4096)
        + bit_value(f.right_shoulder, 8192) + bit_value(f.left_thumb, 16384) + bit_value(f.right_thumb, 32768)
}

fn push_gamepad(bytes: &mut Vec<u8>, f: &GamepadFrame)
    ensures
        final(bytes)@ == old(bytes)@ + gamepad_bytes(*f),
{
    let mask = mask_of(f);
    bytes.push(f.gamepad_index);
    push_u16(bytes, mask);
    push_i16(bytes, f.left_thumb_x);
    push_i16(bytes, f.left_thumb_y);
    push_i16(bytes, f.right_thumb_x);
    push_i16(bytes, f.right_thumb_y);
    push_u16(bytes, f.left_trigger);
    push_u16(bytes, f.right_trigger);
    push_u32(bytes, 1);
    push_le(bytes, [0u8, 0u8, 0u8, 1u8]);
    assert([0u8, 0u8, 0u8, 1u8]@ =~= seq![0u8, 0u8, 0u8, 1u8]);
    assert(final(bytes)@ =~= old(bytes)@ + gamepad_bytes(*f));
}

fn push_pointer_event(bytes: &mut Vec<u8>, e: &PointerEvent)
    ensures
        final(bytes)@ == old(bytes)@ + pointer_event_bytes(*e),
{
    push_u16(bytes, e.contact_major);
    push_u16(bytes, e.contact_minor);
    bytes.push(e.pressure);
    push_u16(bytes, e.twist);
    push_u32(bytes, 0);
    push_i32(bytes, e.x);
    push_i32(bytes, e.y);
    bytes.push(e.event_type);
    assert(final(bytes)@ =~= old(bytes)@ + pointer_event_bytes(*e));
}

/// Abstract contents of one input packet.
pub ghost struct PacketModel {
    pub report_type: u16,
    pub sequence: u32,
    pub gamepads: Seq<GamepadFrame>,
    /// The contacts of each pointer frame.
    pub pointers: Seq<Seq<PointerEvent>>,
    pub max_touchpoints: u8,
    /// The eight bytes of the `f64` millisecond timestamp.
    pub timestamp: Seq<u8>,
}

/// A packet on the wire: type, sequence and timestamp; then the gamepads (their count
/// as a byte, then each); then the contacts of the first pointer frame (a frame count
/// of one, the contact count as a byte, then each); then, for client metadata, the
/// number of touch points.
pub open spec fn packet_bytes(p: PacketModel) -> Seq<u8> {
    le(p.report_type as nat, 2) + le(p.sequence as nat, 4) + p.timestamp + (if p.gamepads.len() > 0 {
        seq![(p.gamepads.len() % 256) as u8] + gamepads_bytes(p.gamepads)
    } else {
        Seq::empty()
    }) + (if p.pointers.len() > 0 {
        seq![1u8, (p.pointers[0].len() % 256) as u8] + pointer_events_bytes(p.pointers[0])
    } else {
        Seq::empty()
    }) + (if p.report_type == 8 { seq![p.max_touchpoints] } else { Seq::empty() })
}

/// The size a packet declares for itself.
pub open spec fn packet_size(p: PacketModel) -> nat {
    14 + (if p.gamepads.len() > 0 { 1 + 23 * p.gamepads.len() } else { 0 }) + (if p.pointers.len() > 0 {
        1 + frames_size(p.pointers)
    } else {
        0
    }) + (if p.report_type == 8 { 1nat } else { 0 })
}

pub open spec fn frames_size(frames: Seq<Seq<PointerEvent>>) -> nat
    decreases frames.len(),
{
    if frames.len() == 0 {
        0
    } else {
        frames_size(frames.drop_last()) + 1 + 20 * frames.last().len()
    }
}

pub open spec fn frame_events(frames: Seq<PointerFrame>) -> Seq<Seq<PointerEvent>> {
    frames.map_values(|f: PointerFrame| f.events@)
}

/// One input packet being assembled.
pub struct InputPacket {
    report_type: u16,
    sequence: u32,
    gamepad_frames: Vec<GamepadFrame>,
    pointer_frames: Vec<PointerFrame>,
    max_touchpoints: u8,
    timestamp: [u8; 8],
}

impl View for InputPacket {
    type V = PacketModel;

    closed spec fn view(&self) -> PacketModel {
        PacketModel {
            report_type: self.report_type,
            sequence: self.sequence,
            gamepads: self.gamepad_frames@,
            pointers: frame_events(self.pointer_frames@),
            max_touchpoints: self.max_touchpoints,
            timestamp: self.timestamp@,
        }
    }
}

impl InputPacket {
    pub fn new(sequence: u32, timestamp: [u8; 8]) -> (packet: Self)
        ensures
            packet@ == (PacketModel {
                report_type: 0,
                sequence,
                gamepads: Seq::empty(),
                pointers: Seq::empty(),
                max_touchpoints: 0,
                timestamp: timestamp@,
            }),
    {
        let packet = InputPacket {
            report_type: ReportType::NoReport.code(),
            sequence,
            gamepad_frames: Vec::new(),
            pointer_frames: Vec::new(),
            max_touchpoints: 0,
            timestamp,
        };
        assert(frame_events(packet.pointer_frames@) =~= Seq::empty());
        packet
    }

    /// The client's metadata report: how many touch points it can send.
    pub fn client_metadata(sequence: u32, max_touchpoints: u8, timestamp: [u8; 8]) -> (packet: Self)
        ensures
            packet@ == (PacketModel {
                report_type: 8,
                sequence,
                gamepads: Seq::empty(),
                pointers: Seq::empty(),
                max_touchpoints,
                timestamp: timestamp@,
            }),
    {
        let mut packet = InputPacket::new(sequence, timestamp);
        packet.report_type = ReportType::ClientMetadata.code();
        packet.max_touchpoints = max_touchpoints;
        packet
    }

    /// Attach gamepad and pointer frames, adding their report kinds to the type.
    pub fn set_data(&mut self, gamepads: Vec<GamepadFrame>, pointers: Vec<PointerFrame>)
        ensures
            final(self)@ == (PacketModel {
                report_type: {
                    let with_gamepads = if gamepads@.len() > 0 { old(self)@.report_type | 2 } else { old(self)@.report_type };
                    if pointers@.len() > 0 { with_gamepads | 4 } else { with_gamepads }
                },
                gamepads: gamepads@,
                pointers: frame_events(pointers@),
                ..old(self)@
            }),
    {
        if gamepads.len() > 0 {
            self.report_type = self.report_type | ReportType::Gamepad.code();
        }
        if pointers.len() > 0 {
            self.report_type = self.report_type | ReportType::Pointer.code();
        }
        self.gamepad_frames = gamepads;
        self.pointer_frames = pointers;
    }

    pub fn to_bytes(&self) -> (bytes: Vec<u8>)
        ensures
            bytes@ == packet_bytes(self@),
    {
        let mut bytes: Vec<u8> = Vec::new();
        push_u16(&mut bytes, self.report_type);
        push_u32(&mut bytes, self.sequence);
        push_le(&mut bytes, self.timestamp);
        let ghost header = bytes@;
        if self.gamepad_frames.len() > 0 {
            self.write_gamepads(&mut bytes);
        }
        let ghost with_gamepads = bytes@;
        if self.pointer_frames.len() > 0 {
            self.write_pointers(&mut bytes);
        }
        let ghost with_pointers = bytes@;
        if self.report_type == ReportType::ClientMetadata.code() {
            bytes.push(self.max_touchpoints);
        }
        proof {
            let p = self@;
            let g = if p.gamepads.len() > 0 {
                seq![(p.gamepads.len() % 256) as u8] + gamepads_bytes(p.gamepads)
            } else {
                Seq::empty()
            };
            let q = if p.pointers.len() > 0 {
                seq![1u8, (p.pointers[0].len() % 256) as u8] + pointer_events_bytes(p.pointers[0])
            } else {
                Seq::empty()
            };
            let t = if p.report_type == 8 { seq![p.max_touchpoints] } else { Seq::<u8>::empty() };
            assert(header == le(p.report_type as nat, 2) + le(p.sequence as nat, 4) + p.timestamp);
            assert(with_gamepads =~= header + g);
            assert(with_pointers =~= header + g + q);
            assert(bytes@ =~= header + g + q + t);
        }
        bytes
    }

    fn write_gamepads(&self, bytes: &mut Vec<u8>)
        requires
            self@.gamepads.len() > 0,
        ensures
            final(bytes)@ == old(bytes)@ + seq![(self@.gamepads.len() % 256) as u8] + gamepads_bytes(self@.gamepads),
    {
        bytes.push((self.gamepad_frames.len() % 256) as u8);
        let ghost start = bytes@;
        let mut k: usize = 0;
        while k < self.gamepad_frames.len()
            invariant
                k <= self.gamepad_frames@.len(),
                bytes@ == start + gamepads_bytes(self.gamepad_frames@.take(k as int)),
            decreases self.gamepad_frames@.len() - k,
        {
            assert(self.gamepad_frames@.take(k as int + 1).drop_last() =~= self.gamepad_frames@.take(k as int));
            push_gamepad(bytes, &self.gamepad_frames[k]);
            k += 1;
            assert(bytes@ =~= start + gamepads_bytes(self.gamepad_frames@.take(k as int)));
        }
        assert(self.gamepad_frames@.take(k as int) =~= self.gamepad_frames@);
        assert(bytes@ =~= old(bytes)@ + seq![(self@.gamepads.len() % 256) as u8] + gamepads_bytes(self@.gamepads));
    }

    fn write_pointers(&self, bytes: &mut Vec<u8>)
        requires
            self@.pointers.len() > 0,
        ensures
            final(bytes)@ == old(bytes)@ + seq![1u8, (self@.pointers[0].len() % 256) as u8] + pointer_events_bytes(
                self@.pointers[0],
            ),
    {
        bytes.push(1);
        let frame = &self.pointer_frames[0];
        bytes.push((frame.events.len() % 256) as u8);
        let ghost start = bytes@;
        let mut k: usize = 0;
        while k < frame.events.len()
            invariant
                k <= frame.events@.len(),
                bytes@ == start + pointer_events_bytes(frame.events@.take(k as int)),
            decreases frame.events@.len() - k,
        {
            assert(frame.events@.take(k as int + 1).drop_last() =~= frame.events@.take(k as int));
            push_pointer_event(bytes, &frame.events[k]);
            k += 1;
            assert(bytes@ =~= start + pointer_events_bytes(frame.events@.take(k as int)));
        }
        assert(frame.events@.take(k as int) =~= frame.events@);
        assert(bytes@ =~= old(bytes)@ + seq![1u8, (self@.pointers[0].len() % 256) as u8] + pointer_events_bytes(
            self@.pointers[0],
        ));
    }
}

/// Presentation reports older than this are not sent.
pub const FRAME_REPORT_MAX_AGE_US: u64 = 250_000;

/// Abstract state of the input queue.
pub ghost struct QueueModel {
    /// The monotonic origin (microseconds) of every timestamp the queue sends.
    pub started: u64,
    pub sequence: u32,
    pub gamepads: Seq<GamepadFrame>,
    /// The contacts of the queued pointer frame, when one is queued.
    pub pointers: Seq<Seq<PointerEvent>>,
}

impl QueueModel {
    /// Pointer contacts always merge into a single queued frame.
    pub open spec fn wf(self) -> bool {
        self.pointers.len() <= 1
    }

    pub open spec fn next(self) -> u32 {
        self.sequence.wrapping_add(1)
    }

    /// The packet that drains the queue, stamped with `timestamp`.
    pub open spec fn drained(self, timestamp: Seq<u8>) -> PacketModel {
        PacketModel {
            report_type: ((if self.gamepads.len() > 0 { 2int } else { 0int }) + (if self.pointers.len() > 0 {
                4int
            } else {
                0int
            })) as u16,
            sequence: self.next(),
            gamepads: self.gamepads,
            pointers: self.pointers,
            max_touchpoints: 0,
            timestamp,
        }
    }

    pub open spec fn has_data(self) -> bool {
        self.gamepads.len() > 0 || self.pointers.len() > 0
    }
}

/// Whole milliseconds since the queue's origin, as a wrapping 32-bit field.
pub open spec fn origin_ms(started: u64, at: u64) -> u32 {
    (((at - started) / 1000) % 0x1_0000_0000) as u32
}

/// A presentation report can be sent: every stage lies between the queue's origin and
/// `now`, in pipeline order, and the picture was rendered at most 250ms ago.
pub open spec fn frame_report_valid(started: u64, frame: PresentedFrame, now: u64) -> bool {
    let t = frame.timing;
    &&& started <= t.received_at_us
    &&& t.received_at_us <= t.submitted_at_us
    &&& t.submitted_at_us <= t.decoded_at_us
    &&& t.decoded_at_us <= frame.rendered_at_us
    &&& frame.rendered_at_us <= now
    &&& now - frame.rendered_at_us <= FRAME_REPORT_MAX_AGE_US
}

/// The 43-byte metadata report of a presented picture: header, one frame, then its RTP
/// timestamp and its receive, submit, decode and render times, and the send time
/// twice, in milliseconds since the queue's origin.
pub open spec fn frame_report_bytes(started: u64, sequence: u32, frame: PresentedFrame, now: u64, timestamp: Seq<u8>) -> Seq<u8> {
    let t = frame.timing;
    le(1, 2) + le(sequence as nat, 4) + timestamp + seq![1u8] + le(t.rtp_timestamp as nat, 4) + le(
        origin_ms(started, t.received_at_us) as nat,
        4,
    ) + le(origin_ms(started, t.submitted_at_us) as nat, 4) + le(origin_ms(started, t.decoded_at_us) as nat, 4) + le(
        origin_ms(started, frame.rendered_at_us) as nat,
        4,
    ) + le(origin_ms(started, now) as nat, 4) + le(origin_ms(started, now) as nat, 4)
}

/// Batches queued frames into packets, one wire packet per send.
pub struct InputQueue {
    started_at_us: u64,
    sequence: u32,
    gamepads: Vec<GamepadFrame>,
    pointers: Vec<PointerFrame>,
}

impl View for InputQueue {
    type V = QueueModel;

    closed spec fn view(&self) -> QueueModel {
        QueueModel {
            started: self.started_at_us,
            sequence: self.sequence,
            gamepads: self.gamepads@,
            pointers: frame_events(self.pointers@),
        }
    }
}

fn origin_millis(started: u64, at: u64) -> (ms: u32)
    requires
        started <= at,
    ensures
        ms == origin_ms(started, at),
{
    (((at - started) / 1000) % 0x1_0000_0000) as u32
}

impl InputQueue {
    pub fn new(started_at_us: u64) -> (queue: Self)
        ensures
            queue@ == (QueueModel { started: started_at_us, sequence: 0, gamepads: Seq::empty(), pointers: Seq::empty() }),
            queue@.wf(),
    {
        let queue = InputQueue { started_at_us, sequence: 0, gamepads: Vec::new(), pointers: Vec::new() };
        assert(frame_events(queue.pointers@) =~= Seq::empty());
        queue
    }

    /// The monotonic origin of the queue's timestamps.
    pub fn started_us(&self) -> (at: u64)
        ensures
            at == self@.started,
    {
        self.started_at_us
    }

    /// The sequence number of the last packet made.
    pub fn sequence(&self) -> (sequence: u32)
        ensures
            sequence == self@.sequence,
    {
        self.sequence
    }

    /// Reports a presented picture. A delayed or inconsistent report is discarded
    /// without consuming a sequence number.
    pub fn rendered_frame_packet(&mut self, frame: PresentedFrame, now_us: u64, timestamp: [u8; 8]) -> (packet: Option<Vec<u8>>)
        ensures
            frame_report_valid(old(self)@.started, frame, now_us) ==> {
                &&& final(self)@ == (QueueModel { sequence: old(self)@.next(), ..old(self)@ })
                &&& packet matches Some(bytes) && bytes@ == frame_report_bytes(
                    old(self)@.started,
                    old(self)@.next(),
                    frame,
                    now_us,
                    timestamp@,
                )
            },
            !frame_report_valid(old(self)@.started, frame, now_us) ==> packet is None && final(self)@ == old(self)@,
    {
        let t = frame.timing;
        if t.received_at_us < self.started_at_us || t.submitted_at_us < t.received_at_us
            || t.decoded_at_us < t.submitted_at_us || frame.rendered_at_us < t.decoded_at_us
            || now_us < frame.rendered_at_us || now_us - frame.rendered_at_us > FRAME_REPORT_MAX_AGE_US {
            return None;
        }
        let start = self.started_at_us;
        let sequence = self.next_sequence();
        let mut bytes: Vec<u8> = Vec::new();
        push_u16(&mut bytes, ReportType::Metadata.code());
        push_u32(&mut bytes, sequence);
        push_le(&mut bytes, timestamp);
        bytes.push(1);
        push_u32(&mut bytes, t.rtp_timestamp);
        push_u32(&mut bytes, origin_millis(start, t.received_at_us));
        push_u32(&mut bytes, origin_millis(start, t.submitted_at_us));
        push_u32(&mut bytes, origin_millis(start, t.decoded_at_us));
        push_u32(&mut bytes, origin_millis(start, frame.rendered_at_us));
        push_u32(&mut bytes, origin_millis(start, now_us));
        push_u32(&mut bytes, origin_millis(start, now_us));
        assert(bytes@ =~= frame_report_bytes(start, sequence, frame, now_us, timestamp@));
        Some(bytes)
    }

    /// Queues gamepad states; a packet goes out when forced or when anything is queued.
    pub fn queue_gamepad_frames(&mut self, frames: Vec<GamepadFrame>, force_send: bool, timestamp: [u8; 8]) -> (packet: Option<Vec<u8>>)
        requires
            old(self)@.wf(),
        ensures
            final(self)@.wf(),
            ({
                let queued = QueueModel { gamepads: old(self)@.gamepads + frames@, ..old(self)@ };
                if force_send || queued.has_data() {
                    &&& packet matches Some(bytes) && bytes@ == packet_bytes(queued.drained(timestamp@))
                    &&& final(self)@ == (QueueModel {
                        sequence: queued.next(),
                        gamepads: Seq::empty(),
                        pointers: Seq::empty(),
                        ..queued
                    })
                } else {
                    packet is None && final(self)@ == queued
                }
            }),
    {
        let mut frames = frames;
        self.gamepads.append(&mut frames);
        self.check_queue_and_packet(force_send, timestamp)
    }

    /// Queues a pointer frame, merging its contacts into the frame already queued, and
    /// always sends.
    pub fn queue_pointer_frame(&mut self, frame: PointerFrame, timestamp: [u8; 8]) -> (packet: Option<Vec<u8>>)
        requires
            old(self)@.wf(),
        ensures
            final(self)@.wf(),
            ({
                let merged = if old(self)@.pointers.len() > 0 {
                    seq![old(self)@.pointers[0] + frame.events@]
                } else {
                    seq![frame.events@]
                };
                let queued = QueueModel { pointers: merged, ..old(self)@ };
                &&& packet matches Some(bytes) && bytes@ == packet_bytes(queued.drained(timestamp@))
                &&& final(self)@ == (QueueModel {
                    sequence: queued.next(),
                    gamepads: Seq::empty(),
                    pointers: Seq::empty(),
                    ..queued
                })
            }),
    {
        let mut frame = frame;
        let ghost added = frame.events@;
        if self.pointers.len() > 0 {
            let mut existing = self.pointers.pop().unwrap();
            existing.events.append(&mut frame.events);
            self.pointers.push(existing);
            assert(frame_events(self.pointers@) =~= seq![old(self)@.pointers[0] + added]) by {
                assert(old(self).pointers@.len() == 1);
            }
        } else {
            self.pointers.push(frame);
            assert(frame_events(self.pointers@) =~= seq![frame.events@]);
        }
        self.check_queue_and_packet(true, timestamp)
    }

    /// The client's metadata report, announcing how many touch points it can send.
    pub fn client_metadata_packet(&mut self, max_touchpoints: u8, timestamp: [u8; 8]) -> (bytes: Vec<u8>)
        ensures
            final(self)@ == (QueueModel { sequence: old(self)@.next(), ..old(self)@ }),
            bytes@ == packet_bytes(
                PacketModel {
                    report_type: 8,
                    sequence: old(self)@.next(),
                    gamepads: Seq::empty(),
                    pointers: Seq::empty(),
                    max_touchpoints,
                    timestamp: timestamp@,
                },
            ),
    {
        let sequence = self.next_sequence();
        InputPacket::client_metadata(sequence, max_touchpoints, timestamp).to_bytes()
    }

    fn check_queue_and_packet(&mut self, force_send: bool, timestamp: [u8; 8]) -> (packet: Option<Vec<u8>>)
        requires
            old(self)@.wf(),
        ensures
            final(self)@.wf(),
            if force_send || old(self)@.has_data() {
                &&& packet matches Some(bytes) && bytes@ == packet_bytes(old(self)@.drained(timestamp@))
                &&& final(self)@ == (QueueModel {
                    sequence: old(self)@.next(),
                    gamepads: Seq::empty(),
                    pointers: Seq::empty(),
                    ..old(self)@
                })
            } else {
                packet is None && final(self)@ == old(self)@
            },
    {
        if force_send || self.gamepads.len() > 0 || self.pointers.len() > 0 {
            Some(self.drain_packet(timestamp))
        } else {
            None
        }
    }

    fn drain_packet(&mut self, timestamp: [u8; 8]) -> (bytes: Vec<u8>)
        requires
            old(self)@.wf(),
        ensures
            final(self)@.wf(),
            bytes@ == packet_bytes(old(self)@.drained(timestamp@)),
            final(self)@ == (QueueModel {
                sequence: old(self)@.next(),
                gamepads: Seq::empty(),
                pointers: Seq::empty(),
                ..old(self)@
            }),
    {
        let sequence = self.next_sequence();
        let mut packet = InputPacket::new(sequence, timestamp);
        let mut gamepads: Vec<GamepadFrame> = Vec::new();
        std::mem::swap(&mut gamepads, &mut self.gamepads);
        let mut pointers: Vec<PointerFrame> = Vec::new();
        std::mem::swap(&mut pointers, &mut self.pointers);
        assert(0u16 | 2u16 == 2u16) by (bit_vector);
        assert(0u16 | 4u16 == 4u16) by (bit_vector);
        assert(2u16 | 4u16 == 6u16) by (bit_vector);
        packet.set_data(gamepads, pointers);
        assert(frame_events(self.pointers@) =~= Seq::empty());
        packet.to_bytes()
    }

    /// Advances the wrapping packet sequence number and returns it.
    pub fn next_sequence(&mut self) -> (sequence: u32)
        ensures
            sequence == old(self)@.next(),
            final(self)@ == (QueueModel { sequence, ..old(self)@ }),
    {
        self.sequence = self.sequence.wrapping_add(1);
        self.sequence
    }
}

proof fn lemma_le_len(v: nat, n: nat)
    ensures
        le(v, n).len() == n,
    decreases n,
{
    reveal(le);
    if n > 0 {
        lemma_le_len(v / 256, (n - 1) as nat);
    }
}

proof fn lemma_gamepads_len(fs: Seq<GamepadFrame>)
    ensures
        gamepads_bytes(fs).len() == 23 * fs.len(),
    decreases fs.len(),
{
    if fs.len() > 0 {
        lemma_gamepads_len(fs.drop_last());
        let f = fs.last();
        lemma_le_len(button_mask(f), 2);
        lemma_le_len(bits16(f.left_thumb_x), 2);
        lemma_le_len(bits16(f.left_thumb_y), 2);
        lemma_le_len(bits16(f.right_thumb_x), 2);
        lemma_le_len(bits16(f.right_thumb_y), 2);
        lemma_le_len(f.left_trigger as nat, 2);
        lemma_le_len(f.right_trigger as nat, 2);
        lemma_le_len(1, 4);
    }
}

proof fn lemma_events_len(es: Seq<PointerEvent>)
    ensures
        pointer_events_bytes(es).len() == 20 * es.len(),
    decreases es.len(),
{
    if es.len() > 0 {
        lemma_events_len(es.drop_last());
        let e = es.last();
        lemma_le_len(e.contact_major as nat, 2);
        lemma_le_len(e.contact_minor as nat, 2);
        lemma_le_len(e.twist as nat, 2);
        lemma_le_len(0, 4);
        lemma_le_len(bits32(e.x), 4);
        lemma_le_len(bits32(e.y), 4);
    }
}

/// A packet is exactly as long as it declares (with at most one pointer frame, which is
/// all the queue ever holds).
pub proof fn law_packet_size_matches_bytes(p: PacketModel)
    requires
        p.timestamp.len() == 8,
        p.pointers.len() <= 1,
    ensures
        packet_bytes(p).len() == packet_size(p),
{
    lemma_le_len(p.report_type as nat, 2);
    lemma_le_len(p.sequence as nat, 4);
    lemma_gamepads_len(p.gamepads);
    if p.pointers.len() > 0 {
        lemma_events_len(p.pointers[0]);
        assert(p.pointers.drop_last() =~= Seq::<Seq<PointerEvent>>::empty());
        assert(frames_size(p.pointers.drop_last()) == 0);
        assert(p.pointers.last() == p.pointers[0]);
        assert(frames_size(p.pointers) == 1 + 20 * p.pointers[0].len());
    }
}

/// Every presentation report is 43 bytes long.
pub proof fn law_frame_report_is_43_bytes(started: u64, sequence: u32, frame: PresentedFrame, now: u64, timestamp: Seq<u8>)
    requires
        timestamp.len() == 8,
    ensures
        frame_report_bytes(started, sequence, frame, now, timestamp).len() == 43,
{
    let t = frame.timing;
    lemma_le_len(1, 2);
    lemma_le_len(sequence as nat, 4);
    lemma_le_len(t.rtp_timestamp as nat, 4);
    lemma_le_len(origin_ms(started, t.received_at_us) as nat, 4);
    lemma_le_len(origin_ms(started, t.submitted_at_us) as nat, 4);
    lemma_le_len(origin_ms(started, t.decoded_at_us) as nat, 4);
    lemma_le_len(origin_ms(started, frame.rendered_at_us) as nat, 4);
    lemma_le_len(origin_ms(started, now) as nat, 4);
}

/// Each button has its fixed wire bit: the two bytes after a gamepad's index are, little
/// endian, the sum over the pressed buttons of nexus 2, menu 4, view 8, A 16, B 32, X 64,
/// Y 128, d-pad up 256, down 512, left 1024, right 2048, left shoulder 4096, right
/// shoulder 8192, left thumb 16384 and right thumb 32768.
pub proof fn law_buttons_have_fixed_wire_bits(f: GamepadFrame)
    ensures
        ({
            let v: int = (if f.nexus { 2int } else { 0 }) + (if f.menu { 4int } else { 0 }) + (if f.view {
                8int
            } else {
                0
            }) + (if f.a { 16int } else { 0 }) + (if f.b { 32int } else { 0 }) + (if f.x { 64int } else { 0 }) + (
            if f.y {
                128int
            } else {
                0
            }) + (if f.dpad_up { 256int } else { 0 }) + (if f.dpad_down { 512int } else { 0 }) + (if f.dpad_left {
                1024int
            } else {
                0
            }) + (if f.dpad_right { 2048int } else { 0 }) + (if f.left_shoulder { 4096int } else { 0 }) + (
            if f.right_shoulder {
                8192int
            } else {
                0
            }) + (if f.left_thumb { 16384int } else { 0 }) + (if f.right_thumb { 32768int } else { 0 });
            &&& gamepad_bytes(f).len() == 23
            &&& gamepad_bytes(f)[0] == f.gamepad_index
            &&& gamepad_bytes(f)[1] == v % 256
            &&& gamepad_bytes(f)[2] == v / 256
        }),
{
    let m = button_mask(f);
    assert(m < 65536) by {
        reveal(bit);
    }
    lemma_two_le_bytes(m);
    lemma_le_len(bits16(f.left_thumb_x), 2);
    lemma_le_len(bits16(f.left_thumb_y), 2);
    lemma_le_len(bits16(f.right_thumb_x), 2);
    lemma_le_len(bits16(f.right_thumb_y), 2);
    lemma_le_len(f.left_trigger as nat, 2);
    lemma_le_len(f.right_trigger as nat, 2);
    lemma_le_len(1, 4);
    let bytes = gamepad_bytes(f);
    assert(bytes[1] == le(m, 2)[0]);
    assert(bytes[2] == le(m, 2)[1]);
    assert(m == (if f.nexus { 2int } else { 0 }) + (if f.menu { 4int } else { 0 }) + (if f.view { 8int } else { 0 })
        + (if f.a { 16int } else { 0 }) + (if f.b { 32int } else { 0 }) + (if f.x { 64int } else { 0 }) + (if f.y {
        128int
    } else {
        0
    }) + (if f.dpad_up { 256int } else { 0 }) + (if f.dpad_down { 512int } else { 0 }) + (if f.dpad_left {
        1024int
    } else {
        0
    }) + (if f.dpad_right { 2048int } else { 0 }) + (if f.left_shoulder { 4096int } else { 0 }) + (
    if f.right_shoulder {
        8192int
    } else {
        0
    }) + (if f.left_thumb { 16384int } else { 0 }) + (if f.right_thumb { 32768int } else { 0 })) by {
        reveal(bit);
    }
}

proof fn lemma_two_le_bytes(m: nat)
    requires
        m < 65536,
    ensures
        le(m, 2).len() == 2,
        le(m, 2)[0] == m % 256,
        le(m, 2)[1] == m / 256,
{
    reveal_with_fuel(le, 3);
    assert((m / 256) % 256 == m / 256);
}

} // verus!
