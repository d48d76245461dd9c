//! Framing of the EnOcean Serial Protocol 3 on the receive queue.
//!
//! A frame on the wire is
//! `sync | data length (2, big-endian) | optional length | packet type |
//! header checksum | data | optional data | data checksum`.
//! The sync byte is not escaped and may occur inside a frame, so a frame is
//! only accepted once both checksums agree.

use crate::crc8::{crc8, crc8_of};
use crate::ring_buffer::{snapshot_len, RingBuffer};
use std::cmp::Ordering;
use vstd::prelude::*;

verus! {

/// The byte that starts every frame.
pub const SYNC_BYTE: u8 = 0x55;

/// How many queued bytes one call of the engine looks at, and how many
/// bytes a payload can hold.
pub const PAYLOAD_CAPACITY: usize = 128;

/// The length of a frame without data: sync, header, and both checksums.
pub const FRAME_OVERHEAD: usize = 7;

/// The packet type of an event that the radio module reports.
pub const PACKET_TYPE_EVENT: u8 = 0x04;

/// The packet type of a common command sent to the radio module.
pub const PACKET_TYPE_COMMON_COMMAND: u8 = 0x05;

/// The event code with which the radio module reports that it has started.
pub const EVENT_READY: u8 = 0x04;

/// The common command that switches transparent mode on or off.
pub const COMMAND_WRITE_TRANSPARENT_MODE: u8 = 0x3E;

/// The packet type of a frame. Codes without a name of their own are kept in
/// `Other`.
#[derive(Clone, Copy, Debug)]
pub enum PacketType {
    RadioErp1,
    Response,
    RadioSubTelegram,
    Event,
    CommonCommand,
    SmartAcknowledgeCommand,
    RemoteManagementCommand,
    RadioMessage,
    RadioErp2,
    ConfigCommand,
    CommandAccepted,
    Raw802_15_4,
    Raw2_4,
    Other(u8),
}

impl PacketType {
    /// The packet type that the engine decodes from a code: the named
    /// variant where the code has one, `Other` where it has none.
    pub open spec fn spec_from_base_type(code: u8) -> PacketType {
        if code == 0x01 {
            PacketType::RadioErp1
        } else if code == 0x02 {
            PacketType::Response
        } else if code == 0x03 {
            PacketType::RadioSubTelegram
        } else if code == 0x04 {
            PacketType::Event
        } else if code == 0x05 {
            PacketType::CommonCommand
        } else if code == 0x06 {
            PacketType::SmartAcknowledgeCommand
        } else if code == 0x07 {
            PacketType::RemoteManagementCommand
        } else if code == 0x09 {
            PacketType::RadioMessage
        } else if code == 0x0A {
            PacketType::RadioErp2
        } else if code == 0x0B {
            PacketType::ConfigCommand
        } else if code == 0x0C {
            PacketType::CommandAccepted
        } else if code == 0x10 {
            PacketType::Raw802_15_4
        } else if code == 0x11 {
            PacketType::Raw2_4
        } else {
            PacketType::Other(code)
        }
    }

    /// The code of a packet type on the wire.
    pub open spec fn spec_to_base_type(self) -> u8 {
        match self {
            PacketType::RadioErp1 => 0x01,
            PacketType::Response => 0x02,
            PacketType::RadioSubTelegram => 0x03,
            PacketType::Event => 0x04,
            PacketType::CommonCommand => 0x05,
            PacketType::SmartAcknowledgeCommand => 0x06,
            PacketType::RemoteManagementCommand => 0x07,
            PacketType::RadioMessage => 0x09,
            PacketType::RadioErp2 => 0x0A,
            PacketType::ConfigCommand => 0x0B,
            PacketType::CommandAccepted => 0x0C,
            PacketType::Raw802_15_4 => 0x10,
            PacketType::Raw2_4 => 0x11,
            PacketType::Other(code) => code,
        }
    }

    /// Decodes a packet type from its code.
    pub fn from_base_type(code: u8) -> (packet_type: PacketType)
        ensures
            packet_type == Self::spec_from_base_type(code),
    {
        match code {
            0x01 => PacketType::RadioErp1,
            0x02 => PacketType::Response,
            0x03 => PacketType::RadioSubTelegram,
            0x04 => PacketType::Event,
            0x05 => PacketType::CommonCommand,
            0x06 => PacketType::SmartAcknowledgeCommand,
            0x07 => PacketType::RemoteManagementCommand,
            0x09 => PacketType::RadioMessage,
            0x0A => PacketType::RadioErp2,
            0x0B => PacketType::ConfigCommand,
            0x0C => PacketType::CommandAccepted,
            0x10 => PacketType::Raw802_15_4,
            0x11 => PacketType::Raw2_4,
            other => PacketType::Other(other),
        }
    }

    /// The code of this packet type on the wire.
    pub fn to_base_type(&self) -> (code: u8)
        ensures
            code == self.spec_to_base_type(),
    {
        match self {
            PacketType::RadioErp1 => 0x01,
            PacketType::Response => 0x02,
            PacketType::RadioSubTelegram => 0x03,
            PacketType::Event => 0x04,
            PacketType::CommonCommand => 0x05,
            PacketType::SmartAcknowledgeCommand => 0x06,
            PacketType::RemoteManagementCommand => 0x07,
            PacketType::RadioMessage => 0x09,
            PacketType::RadioErp2 => 0x0A,
            PacketType::ConfigCommand => 0x0B,
            PacketType::CommandAccepted => 0x0C,
            PacketType::Raw802_15_4 => 0x10,
            PacketType::Raw2_4 => 0x11,
            PacketType::Other(code) => *code,
        }
    }

    /// Every code decodes to a packet type with that code.
    pub proof fn lemma_code_round_trip(code: u8)
        ensures
            Self::spec_from_base_type(code).spec_to_base_type() == code,
    {
    }
}

/// Packet types are compared by their codes: `Other(1)` equals `RadioErp1`.
impl PartialEq for PacketType {
    fn eq(&self, other: &PacketType) -> (equal: bool) {
        self.to_base_type() == other.to_base_type()
    }
}

impl Eq for PacketType {

}

impl vstd::std_specs::cmp::PartialEqSpecImpl for PacketType {
    open spec fn obeys_eq_spec() -> bool {
        true
    }

    open spec fn eq_spec(&self, other: &PacketType) -> bool {
        self.spec_to_base_type() == other.spec_to_base_type()
    }
}

/// Packet types are ordered by their codes.
impl PartialOrd for PacketType {
    fn partial_cmp(&self, other: &PacketType) -> (order: Option<Ordering>) {
        let left = self.to_base_type();
        let right = other.to_base_type();
        if left < right {
            Some(Ordering::Less)
        } else if left == right {
            Some(Ordering::Equal)
        } else {
            Some(Ordering::Greater)
        }
    }
}

impl vstd::std_specs::cmp::PartialOrdSpecImpl for PacketType {
    open spec fn obeys_partial_cmp_spec() -> bool {
        true
    }

    open spec fn partial_cmp_spec(&self, other: &PacketType) -> Option<Ordering> {
        if self.spec_to_base_type() < other.spec_to_base_type() {
            Some(Ordering::Less)
        } else if self.spec_to_base_type() == other.spec_to_base_type() {
            Some(Ordering::Equal)
        } else {
            Some(Ordering::Greater)
        }
    }
}

/// What a payload holds: the data of a frame and its optional data.
pub struct PayloadView {
    pub data: Seq<u8>,
    pub optional_data: Seq<u8>,
}

/// The data and optional data of one frame, in a buffer of fixed size.
#[derive(Clone, Copy, Debug, PartialEq, Eq, Hash, PartialOrd, Ord)]
pub struct Payload {
    buffer: [u8; 128],
    data_length: usize,
    optional_data_length: usize,
}

impl View for Payload {
    type V = PayloadView;

    closed spec fn view(&self) -> PayloadView {
        PayloadView {
            data: self.buffer@.subrange(0, self.data_length as int),
            optional_data: self.buffer@.subrange(
                self.data_length as int,
                self.data_length + self.optional_data_length,
            ),
        }
    }
}

impl Payload {
    /// The representation invariant: data and optional data together fit
    /// into the buffer, and the buffer is zero behind them. Every payload
    /// that executable code holds satisfies it.
    #[verifier::type_invariant]
    pub closed spec fn wf(&self) -> bool {
        &&& self.data_length + self.optional_data_length <= PAYLOAD_CAPACITY
        &&& forall|i: int|
            self.data_length + self.optional_data_length <= i < PAYLOAD_CAPACITY
                ==> #[trigger] self.buffer@[i] == 0
    }

    /// The data of the frame.
    pub fn data(&self) -> (data: &[u8])
        ensures
            data@ == self@.data,
    {
        proof {
            use_type_invariant(self);
        }
        vstd::slice::slice_subrange(self.buffer.as_slice(), 0, self.data_length)
    }

    /// The optional data of the frame.
    pub fn optional_data(&self) -> (optional_data: &[u8])
        ensures
            optional_data@ == self@.optional_data,
    {
        proof {
            use_type_invariant(self);
        }
        vstd::slice::slice_subrange(
            self.buffer.as_slice(),
            self.data_length,
            self.data_length + self.optional_data_length,
        )
    }

    /// A well-formed payload is determined by its data and optional data.
    pub proof fn lemma_view_determines(a: Payload, b: Payload)
        requires
            a.wf(),
            b.wf(),
            a@.data == b@.data,
            a@.optional_data == b@.optional_data,
        ensures
            a == b,
    {
        assert(a.data_length == a@.data.len());
        assert(b.data_length == b@.data.len());
        assert(a.optional_data_length == a@.optional_data.len());
        assert(b.optional_data_length == b@.optional_data.len());
        assert forall|i: int| 0 <= i < 128 implies a.buffer@[i] == b.buffer@[i] by {
            if i < a.data_length {
                assert(a.buffer@[i] == a@.data[i]);
                assert(b.buffer@[i] == b@.data[i]);
            } else if i < a.data_length + a.optional_data_length {
                assert(a.buffer@[i] == a@.optional_data[i - a.data_length]);
                assert(b.buffer@[i] == b@.optional_data[i - b.data_length]);
            }
        }
        assert(a.buffer =~= b.buffer);
    }
}

impl Default for Payload {
    /// The payload without data and without optional data.
    fn default() -> (payload: Payload)
        ensures
            payload.wf(),
            payload@.data == Seq::<u8>::empty(),
            payload@.optional_data == Seq::<u8>::empty(),
    {
        let payload = Payload { buffer: [0u8; 128], data_length: 0, optional_data_length: 0 };
        assert(payload@.data =~= Seq::<u8>::empty());
        assert(payload@.optional_data =~= Seq::<u8>::empty());
        payload
    }
}

/// What one call of the engine found.
#[derive(Clone, Copy, Debug, PartialEq, Eq, PartialOrd)]
pub enum PacketResult {
    /// Nothing is queued.
    BufferEmpty,
    /// The bytes looked at hold no frame at the front: either no sync byte
    /// at all, or a sync byte that a checksum refuted.
    NotSynced,
    /// A sync byte is at the front, with fewer bytes than the shortest frame.
    NotEnoughBytes,
    /// The header is valid, and the frame it announces is not yet complete.
    Short,
    /// A frame with both checksums valid.
    Packet { packet_type: PacketType, payload: Payload },
}

/// What a result says, with the payload as plain sequences.
pub enum Outcome {
    BufferEmpty,
    NotSynced,
    NotEnoughBytes,
    Short,
    Packet { packet_type: PacketType, data: Seq<u8>, optional_data: Seq<u8> },
}

impl View for PacketResult {
    type V = Outcome;

    open spec fn view(&self) -> Outcome {
        match *self {
            PacketResult::BufferEmpty => Outcome::BufferEmpty,
            PacketResult::NotSynced => Outcome::NotSynced,
            PacketResult::NotEnoughBytes => Outcome::NotEnoughBytes,
            PacketResult::Short => Outcome::Short,
            PacketResult::Packet { packet_type, payload } => Outcome::Packet {
                packet_type,
                data: payload@.data,
                optional_data: payload@.optional_data,
            },
        }
    }
}

/// The bytes that one look at the queue sees: the oldest 128, or all of them
/// where fewer are queued.
pub open spec fn window(queued: Seq<u8>) -> Seq<u8> {
    queued.take(snapshot_len(queued.len(), PAYLOAD_CAPACITY as nat) as int)
}

/// The number of bytes in front of the first sync byte of `bytes`, which is
/// the length of `bytes` where it holds no sync byte.
pub open spec fn sync_offset(bytes: Seq<u8>) -> int
    decreases bytes.len(),
{
    if bytes.len() == 0 || bytes[0] == SYNC_BYTE {
        0
    } else {
        1 + sync_offset(bytes.drop_first())
    }
}

/// The length of the data that the header of `frame` announces.
pub open spec fn data_length(frame: Seq<u8>) -> int {
    frame[1] * 256 + frame[2]
}

/// The length of the optional data that the header of `frame` announces.
pub open spec fn optional_length(frame: Seq<u8>) -> int {
    frame[3] as int
}

/// The length of the whole frame that the header of `frame` announces.
pub open spec fn frame_length(frame: Seq<u8>) -> int {
    FRAME_OVERHEAD + data_length(frame) + optional_length(frame)
}

/// Whether the header checksum of `frame` agrees with its header.
pub open spec fn header_valid(frame: Seq<u8>) -> bool {
    crc8_of(frame.subrange(1, 5)) == frame[5]
}

/// The data of `frame` followed by its optional data.
pub open spec fn body(frame: Seq<u8>) -> Seq<u8> {
    frame.subrange(6, frame_length(frame) - 1)
}

/// Whether the data checksum of `frame` agrees with its data and optional
/// data.
pub open spec fn body_valid(frame: Seq<u8>) -> bool {
    crc8_of(body(frame)) == frame[frame_length(frame) - 1]
}

/// A frame of the given packet type, data and optional data, as it stands
/// on the wire.
#[verifier::opaque]
pub open spec fn frame_bytes(packet_type: u8, data: Seq<u8>, optional_data: Seq<u8>) -> Seq<u8> {
    let header = seq![
        (data.len() / 256) as u8,
        (data.len() % 256) as u8,
        optional_data.len() as u8,
        packet_type,
    ];
    seq![SYNC_BYTE] + header + seq![crc8_of(header)] + data + optional_data + seq![
        crc8_of(data + optional_data),
    ]
}

/// The command that asks the radio module to enter transparent mode.
pub open spec fn transparent_mode_frame() -> Seq<u8> {
    frame_bytes(
        PACKET_TYPE_COMMON_COMMAND,
        seq![COMMAND_WRITE_TRANSPARENT_MODE, 0x01u8],
        Seq::<u8>::empty(),
    )
}

/// Whether a valid frame reports that the radio module has started.
pub open spec fn is_ready_event(frame: Seq<u8>) -> bool {
    frame[4] == PACKET_TYPE_EVENT && data_length(frame) > 0 && frame[6] == EVENT_READY
}

/// One decision of the engine: what it reports, how many of the oldest
/// queued bytes it removes, and what it sends to the radio module.
pub struct Step {
    pub outcome: Outcome,
    pub consumed: int,
    pub reply: Seq<u8>,
}

/// The decision that the engine takes on the queued bytes.
///
/// The bytes in front of the first sync byte are noise and are removed. A
/// sync byte that a checksum refutes is removed alone. A frame that is not
/// yet complete stays where it is. A valid frame is removed whole.
pub open spec fn step(queued: Seq<u8>) -> Step {
    let seen = window(queued);
    let noise = sync_offset(seen);
    let frame = window(queued.skip(noise));
    let silent = Seq::<u8>::empty();
    if seen.len() == 0 {
        Step { outcome: Outcome::BufferEmpty, consumed: 0, reply: silent }
    } else if noise == seen.len() {
        Step { outcome: Outcome::NotSynced, consumed: noise, reply: silent }
    } else if frame.len() < FRAME_OVERHEAD {
        Step { outcome: Outcome::NotEnoughBytes, consumed: noise, reply: silent }
    } else if !header_valid(frame) {
        Step { outcome: Outcome::NotSynced, consumed: noise + 1, reply: silent }
    } else if frame.len() < frame_length(frame) {
        Step { outcome: Outcome::Short, consumed: noise, reply: silent }
    } else if !body_valid(frame) {
        Step { outcome: Outcome::NotSynced, consumed: noise + 1, reply: silent }
    } else {
        Step {
            outcome: Outcome::Packet {
                packet_type: PacketType::spec_from_base_type(frame[4]),
                data: frame.subrange(6, 6 + data_length(frame)),
                optional_data: frame.subrange(6 + data_length(frame), frame_length(frame) - 1),
            },
            consumed: noise + frame_length(frame),
            reply: if is_ready_event(frame) {
                transparent_mode_frame()
            } else {
                silent
            },
        }
    }
}

/// The sync offset of a sequence is the place of its first sync byte.
pub proof fn lemma_sync_offset(bytes: Seq<u8>)
    ensures
        0 <= sync_offset(bytes) <= bytes.len(),
        forall|i: int| 0 <= i < sync_offset(bytes) ==> bytes[i] != SYNC_BYTE,
        sync_offset(bytes) < bytes.len() ==> bytes[sync_offset(bytes)] == SYNC_BYTE,
    decreases bytes.len(),
{
    if bytes.len() > 0 && bytes[0] != SYNC_BYTE {
        let rest = bytes.drop_first();
        lemma_sync_offset(rest);
        assert forall|i: int| 0 <= i < sync_offset(bytes) implies bytes[i] != SYNC_BYTE by {
            if i > 0 {
                assert(bytes[i] == rest[i - 1]);
            }
        }
    }
}

/// The first place of `bytes` that holds a sync byte and has none before it
/// is the sync offset.
pub proof fn lemma_sync_offset_unique(bytes: Seq<u8>, place: int)
    requires
        0 <= place <= bytes.len(),
        forall|i: int| 0 <= i < place ==> bytes[i] != SYNC_BYTE,
        place < bytes.len() ==> bytes[place] == SYNC_BYTE,
    ensures
        sync_offset(bytes) == place,
{
    lemma_sync_offset(bytes);
}

fn find_sync(buffer: &[u8; 128], size: usize) -> (offset: usize)
    requires
        size <= 128,
    ensures
        offset == sync_offset(buffer@.take(size as int)),
        offset <= size,
{
    let mut index: usize = 0;
    while index < size && buffer[index] != SYNC_BYTE
        invariant
            index <= size <= 128,
            forall|i: int| 0 <= i < index ==> buffer@[i] != SYNC_BYTE,
        decreases size - index,
    {
        index = index + 1;
    }
    proof {
        lemma_sync_offset_unique(buffer@.take(size as int), index as int);
    }
    index
}

fn discard<const SIZE: usize>(queue: &mut RingBuffer<u8, SIZE>, count: usize)
    requires
        count <= old(queue)@.len(),
    ensures
        final(queue).wf(),
        final(queue)@ == old(queue)@.skip(count as int),
        final(queue).write_cursor() == old(queue).write_cursor(),
{
    proof {
        use_type_invariant(&*queue);
    }
    let mut done: usize = 0;
    while done < count
        invariant
            queue.wf(),
            queue.write_cursor() == old(queue).write_cursor(),
            done <= count <= old(queue)@.len(),
            queue@ == old(queue)@.skip(done as int),
        decreases count - done,
    {
        let _ = queue.read();
        done = done + 1;
        assert(queue@ =~= old(queue)@.skip(done as int));
    }
}

/// Builds the command that asks the radio module to enter transparent mode.
pub fn transparent_mode_command() -> (frame: [u8; 9])
    ensures
        frame@ == transparent_mode_frame(),
{
    let mut frame: [u8; 9] = [
        SYNC_BYTE,
        0x00,
        0x02,
        0x00,
        PACKET_TYPE_COMMON_COMMAND,
        0x00,
        COMMAND_WRITE_TRANSPARENT_MODE,
        0x01,
        0x00,
    ];
    let header_checksum = crc8(vstd::slice::slice_subrange(frame.as_slice(), 1, 5));
    let data_checksum = crc8(vstd::slice::slice_subrange(frame.as_slice(), 6, 8));
    proof {
        assert(frame@.subrange(1, 5) =~= seq![0x00u8, 0x02u8, 0x00u8, PACKET_TYPE_COMMON_COMMAND]);
        assert(frame@.subrange(6, 8) =~= seq![COMMAND_WRITE_TRANSPARENT_MODE, 0x01u8]);
        lemma_transparent_mode_frame_bytes();
    }
    frame[5] = header_checksum;
    frame[8] = data_checksum;
    assert(frame@ =~= transparent_mode_frame());
    frame
}

/// On an empty queue the engine reports `BufferEmpty`, removes nothing and
/// sends nothing, however often it is called.
pub proof fn lemma_empty_queue(queued: Seq<u8>)
    requires
        queued.len() == 0,
    ensures
        step(queued).outcome == Outcome::BufferEmpty,
        step(queued).consumed == 0,
        step(queued).reply == Seq::<u8>::empty(),
        queued.skip(step(queued).consumed) == queued,
{
    assert(queued.skip(0) =~= queued);
}

/// Where the bytes that the engine looks at hold no sync byte, it reports
/// `NotSynced` and removes all of them: a queue of up to 128 such bytes is
/// left empty.
pub proof fn lemma_noise_is_discarded(queued: Seq<u8>)
    requires
        queued.len() > 0,
        forall|i: int| 0 <= i < queued.len() && i < PAYLOAD_CAPACITY ==> queued[i] != SYNC_BYTE,
    ensures
        step(queued).outcome == Outcome::NotSynced,
        step(queued).consumed == window(queued).len(),
        step(queued).reply == Seq::<u8>::empty(),
        queued.len() <= PAYLOAD_CAPACITY ==> queued.skip(step(queued).consumed).len() == 0,
{
    let seen = window(queued);
    lemma_sync_offset_unique(seen, seen.len() as int);
}

/// A sync byte at the front with fewer than six bytes behind it is left
/// alone: the engine reports `NotEnoughBytes` and the queue stays as it is.
pub proof fn lemma_frame_start_waits(queued: Seq<u8>)
    requires
        0 < queued.len() < FRAME_OVERHEAD,
        queued[0] == SYNC_BYTE,
    ensures
        step(queued).outcome == Outcome::NotEnoughBytes,
        step(queued).consumed == 0,
        step(queued).reply == Seq::<u8>::empty(),
        queued.skip(step(queued).consumed) == queued,
{
    assert(queued.skip(0) =~= queued);
}

/// A sync byte at the front whose header checksum does not agree is a false
/// start: the engine reports `NotSynced` and removes that one byte.
pub proof fn lemma_bad_header_drops_sync(queued: Seq<u8>)
    requires
        queued.len() >= FRAME_OVERHEAD,
        queued[0] == SYNC_BYTE,
        !header_valid(window(queued)),
    ensures
        step(queued).outcome == Outcome::NotSynced,
        step(queued).consumed == 1,
        step(queued).reply == Seq::<u8>::empty(),
{
    assert(queued.skip(0) =~= queued);
}

/// A frame at the front of the queue, of up to 121 bytes of data and
/// optional data, is decoded to what it was built from and removed whole;
/// what is queued behind it stays. The engine sends the transparent-mode
/// command exactly when the frame is a ready event.
pub proof fn lemma_frame_is_decoded(
    packet_type: u8,
    data: Seq<u8>,
    optional_data: Seq<u8>,
    rest: Seq<u8>,
)
    requires
        FRAME_OVERHEAD + data.len() + optional_data.len() <= PAYLOAD_CAPACITY,
    ensures
        step(frame_bytes(packet_type, data, optional_data) + rest).outcome == (Outcome::Packet {
            packet_type: PacketType::spec_from_base_type(packet_type),
            data,
            optional_data,
        }),
        step(frame_bytes(packet_type, data, optional_data) + rest).consumed == FRAME_OVERHEAD
            + data.len() + optional_data.len(),
        (frame_bytes(packet_type, data, optional_data) + rest).skip(
            step(frame_bytes(packet_type, data, optional_data) + rest).consumed,
        ) == rest,
        step(frame_bytes(packet_type, data, optional_data) + rest).reply == if packet_type
            == PACKET_TYPE_EVENT && data.len() > 0 && data[0] == EVENT_READY {
            transparent_mode_frame()
        } else {
            Seq::<u8>::empty()
        },
{
    let bytes = frame_bytes(packet_type, data, optional_data);
    let queued = bytes + rest;
    let length = FRAME_OVERHEAD + data.len() + optional_data.len();
    lemma_frame_layout(packet_type, data, optional_data);
    assert(queued.skip(0) =~= queued);
    let frame = window(queued);
    assert(frame.len() >= length);
    assert(frame.take(length as int) =~= bytes);
    assert(frame[0] == bytes[0]);
    assert(sync_offset(frame) == 0);
    assert(frame[1] == bytes[1] && frame[2] == bytes[2] && frame[3] == bytes[3] && frame[4]
        == bytes[4] && frame[5] == bytes[5]);
    assert(frame.subrange(1, 5) =~= bytes.subrange(1, 5));
    assert(header_valid(frame));
    assert(frame_length(frame) == length);
    assert(body(frame) =~= body(bytes));
    assert(frame[length - 1] == bytes[length - 1]);
    assert(body_valid(frame));
    assert(frame.subrange(6, 6 + data_length(frame)) =~= data);
    assert(frame.subrange(6 + data_length(frame), frame_length(frame) - 1) =~= optional_data);
    assert(queued.skip(length as int) =~= rest);
    if data.len() > 0 {
        assert(frame[6] == bytes[6]);
        assert(bytes[6] == bytes.subrange(6, 6 + data.len() as int)[0]);
    }
}

/// Where the parts of a frame stand on the wire.
pub proof fn lemma_frame_layout(packet_type: u8, data: Seq<u8>, optional_data: Seq<u8>)
    requires
        FRAME_OVERHEAD + data.len() + optional_data.len() <= PAYLOAD_CAPACITY,
    ensures
        ({
            let bytes = frame_bytes(packet_type, data, optional_data);
            let dl = data.len() as int;
            let ol = optional_data.len() as int;
            &&& bytes.len() == FRAME_OVERHEAD + data.len() + optional_data.len()
            &&& bytes[0] == SYNC_BYTE
            &&& data_length(bytes) == data.len()
            &&& optional_length(bytes) == optional_data.len()
            &&& bytes[4] == packet_type
            &&& header_valid(bytes)
            &&& bytes.subrange(6, 6 + dl) == data
            &&& bytes.subrange(6 + dl, 6 + dl + ol)
                == optional_data
            &&& body(bytes) == data + optional_data
            &&& body_valid(bytes)
        }),
{
    let bytes = frame_bytes(packet_type, data, optional_data);
    let dl = data.len() as int;
    let ol = optional_data.len() as int;
    let header = seq![
        (data.len() / 256) as u8,
        (data.len() % 256) as u8,
        optional_data.len() as u8,
        packet_type,
    ];
    let front = seq![SYNC_BYTE] + header + seq![crc8_of(header)];
    reveal(frame_bytes);
    assert(front.len() == 6);
    assert(bytes =~= front + data + optional_data + seq![crc8_of(data + optional_data)]);
    assert(bytes.len() == FRAME_OVERHEAD + data.len() + optional_data.len());
    assert(bytes[0] == SYNC_BYTE);
    assert(bytes[1] == header[0] && bytes[2] == header[1] && bytes[3] == header[2] && bytes[4]
        == header[3]);
    assert(bytes[5] == crc8_of(header));
    assert(bytes.subrange(1, 5) =~= header);
    assert(bytes.subrange(6, 6 + dl) =~= data);
    assert(bytes.subrange(6 + dl, 6 + dl + ol)
        =~= optional_data);
    assert(bytes.subrange(6, 6 + dl + ol) =~= data + optional_data);
}

/// The engine never removes more than is queued, and it makes progress: it
/// removes at least one byte unless it reports that nothing is queued or
/// that a frame at the front is not yet complete. In the latter case a sync
/// byte stands at the front of what stays queued.
pub proof fn lemma_progress(queued: Seq<u8>)
    ensures
        0 <= step(queued).consumed <= queued.len(),
        step(queued).consumed > 0 || step(queued).outcome == Outcome::BufferEmpty || step(
            queued,
        ).outcome == Outcome::NotEnoughBytes || step(queued).outcome == Outcome::Short,
        step(queued).outcome == Outcome::NotEnoughBytes || step(queued).outcome == Outcome::Short
            ==> queued.skip(step(queued).consumed).len() > 0 && queued.skip(
            step(queued).consumed,
        )[0] == SYNC_BYTE,
        step(queued).outcome == Outcome::BufferEmpty <==> queued.len() == 0,
{
    let seen = window(queued);
    lemma_sync_offset(seen);
    let noise = sync_offset(seen);
    if noise < seen.len() {
        assert(seen[noise] == SYNC_BYTE);
        assert(queued.skip(noise)[0] == queued[noise]);
    }
}

/// What stays queued after the engine has been called `calls` times and
/// nothing has arrived in between.
pub open spec fn remaining_after(queued: Seq<u8>, calls: nat) -> Seq<u8>
    decreases calls,
{
    if calls == 0 {
        queued
    } else {
        remaining_after(queued.skip(step(queued).consumed), (calls - 1) as nat)
    }
}

/// Resynchronization ends: called again and again on what is queued, the
/// engine reports `NotSynced` at most once for each queued byte, and then
/// something else: a packet, a frame that is not yet complete, or an empty
/// queue. The result is the number of calls that report `NotSynced`.
pub proof fn lemma_resynchronization_ends(queued: Seq<u8>) -> (calls: nat)
    ensures
        calls <= queued.len(),
        step(remaining_after(queued, calls)).outcome != Outcome::NotSynced,
        forall|earlier: nat|
            earlier < calls ==> step(#[trigger] remaining_after(queued, earlier)).outcome
                == Outcome::NotSynced,
    decreases queued.len(),
{
    if step(queued).outcome == Outcome::NotSynced {
        lemma_progress(queued);
        let rest = queued.skip(step(queued).consumed);
        let later = lemma_resynchronization_ends(rest);
        let calls = later + 1;
        assert(remaining_after(queued, calls) == remaining_after(rest, later));
        assert forall|earlier: nat| earlier < calls implies step(
            #[trigger] remaining_after(queued, earlier),
        ).outcome == Outcome::NotSynced by {
            if earlier > 0 {
                assert(remaining_after(queued, earlier) == remaining_after(
                    rest,
                    (earlier - 1) as nat,
                ));
            }
        }
        calls
    } else {
        0
    }
}

/// The transparent-mode command written out byte by byte.
pub proof fn lemma_transparent_mode_frame_bytes()
    ensures
        transparent_mode_frame() == seq![
            SYNC_BYTE,
            0x00u8,
            0x02u8,
            0x00u8,
            PACKET_TYPE_COMMON_COMMAND,
            crc8_of(seq![0x00u8, 0x02u8, 0x00u8, PACKET_TYPE_COMMON_COMMAND]),
            COMMAND_WRITE_TRANSPARENT_MODE,
            0x01u8,
            crc8_of(seq![COMMAND_WRITE_TRANSPARENT_MODE, 0x01u8]),
        ],
{
    let data = seq![COMMAND_WRITE_TRANSPARENT_MODE, 0x01u8];
    let header = seq![0x00u8, 0x02u8, 0x00u8, PACKET_TYPE_COMMON_COMMAND];
    reveal(frame_bytes);
    assert(data + Seq::<u8>::empty() =~= data);
    assert(seq![(data.len() / 256) as u8, (data.len() % 256) as u8, 0u8, PACKET_TYPE_COMMON_COMMAND]
        =~= header);
    assert(transparent_mode_frame() =~= seq![
        SYNC_BYTE,
        0x00u8,
        0x02u8,
        0x00u8,
        PACKET_TYPE_COMMON_COMMAND,
        crc8_of(header),
        COMMAND_WRITE_TRANSPARENT_MODE,
        0x01u8,
        crc8_of(data),
    ]);
}

/// The command that the engine sends is itself a frame that the engine
/// accepts: it decodes to a common command with the data `[0x3E, 0x01]`.
pub proof fn lemma_transparent_mode_frame_is_valid()
    ensures
        step(transparent_mode_frame()).outcome == (Outcome::Packet {
            packet_type: PacketType::CommonCommand,
            data: seq![COMMAND_WRITE_TRANSPARENT_MODE, 0x01u8],
            optional_data: Seq::<u8>::empty(),
        }),
        step(transparent_mode_frame()).consumed == 9,
        step(transparent_mode_frame()).reply == Seq::<u8>::empty(),
{
    let data = seq![COMMAND_WRITE_TRANSPARENT_MODE, 0x01u8];
    let none = Seq::<u8>::empty();
    lemma_frame_is_decoded(PACKET_TYPE_COMMON_COMMAND, data, none, none);
    assert(transparent_mode_frame() + none =~= transparent_mode_frame());
}

fn build_payload(buffer: &[u8; 128], data_length: usize, optional_length: usize) -> (payload:
    Payload)
    requires
        6 + data_length + optional_length <= 128,
    ensures
        payload.wf(),
        payload@.data == buffer@.subrange(6, 6 + data_length),
        payload@.optional_data == buffer@.subrange(
            6 + data_length,
            6 + data_length + optional_length,
        ),
{
    let total: usize = data_length + optional_length;
    let mut payload_buffer = [0u8; 128];
    let mut index: usize = 0;
    while index < total
        invariant
            index <= total,
            6 + total <= 128,
            forall|i: int| 0 <= i < index ==> payload_buffer@[i] == buffer@[6 + i],
            forall|i: int| index <= i < 128 ==> payload_buffer@[i] == 0,
        decreases total - index,
    {
        payload_buffer[index] = buffer[6 + index];
        index = index + 1;
    }
    let payload = Payload {
        buffer: payload_buffer,
        data_length,
        optional_data_length: optional_length,
    };
    assert(payload@.data =~= buffer@.subrange(6, 6 + data_length));
    assert(payload@.optional_data =~= buffer@.subrange(
        6 + data_length,
        6 + data_length + optional_length,
    ));
    payload
}

fn send(outbound: &mut Vec<u8>, frame: &[u8; 9])
    ensures
        final(outbound)@ == old(outbound)@ + frame@,
{
    let mut index: usize = 0;
    while index < 9
        invariant
            index <= 9,
            outbound@ == old(outbound)@ + frame@.take(index as int),
        decreases 9 - index,
    {
        outbound.push(frame[index]);
        index = index + 1;
        assert(outbound@ =~= old(outbound)@ + frame@.take(index as int));
    }
    assert(frame@.take(9) =~= frame@);
}

/// Takes one decision on the queued bytes, as [`step`] describes it: removes
/// from `queue` what the decision consumes, appends to `outbound` what it
/// sends to the radio module, and returns what it found.
///
/// Each call starts from what is queued and keeps no state of its own: a
/// frame that is not yet complete is looked at again on the next call. The
/// engine only reads from the queue and never moves its write cursor.
pub fn process_one_packet<const SIZE: usize>(
    queue: &mut RingBuffer<u8, SIZE>,
    outbound: &mut Vec<u8>,
) -> (result: PacketResult)
    ensures
        final(queue).wf(),
        result@ == step(old(queue)@).outcome,
        result matches PacketResult::Packet { payload, .. } ==> payload.wf(),
        final(queue)@ == old(queue)@.skip(step(old(queue)@).consumed),
        final(queue).write_cursor() == old(queue).write_cursor(),
        final(outbound)@ == old(outbound)@ + step(old(queue)@).reply,
{
    proof {
        use_type_invariant(&*queue);
    }
    let ghost queued = queue@;
    assert(outbound@ =~= outbound@ + Seq::<u8>::empty());
    assert(queued.skip(0) =~= queued);

    let mut current_buffer = [0u8; 128];
    let seen_size = queue.snapshot(&mut current_buffer);
    assert(current_buffer@.take(seen_size as int) =~= window(queued));
    if seen_size == 0 {
        return PacketResult::BufferEmpty;
    }
    let noise = find_sync(&current_buffer, seen_size);
    discard(queue, noise);
    if noise == seen_size {
        return PacketResult::NotSynced;
    }
    let ghost synced = queued.skip(noise as int);

    let current_size = queue.snapshot(&mut current_buffer);
    let ghost frame = window(synced);
    assert(current_buffer@.take(current_size as int) =~= frame);
    if current_size < FRAME_OVERHEAD {
        return PacketResult::NotEnoughBytes;
    }
    let header_checksum = crc8(vstd::slice::slice_subrange(current_buffer.as_slice(), 1, 5));
    assert(current_buffer@.subrange(1, 5) =~= frame.subrange(1, 5));
    if header_checksum != current_buffer[5] {
        let _ = queue.read();
        assert(queue@ =~= queued.skip(noise + 1));
        return PacketResult::NotSynced;
    }
    let data_size: usize = (current_buffer[1] as usize) * 256 + (current_buffer[2] as usize);
    let optional_size: usize = current_buffer[3] as usize;
    let total: usize = data_size + optional_size;
    if current_size < FRAME_OVERHEAD + total {
        return PacketResult::Short;
    }
    let data_checksum = crc8(
        vstd::slice::slice_subrange(current_buffer.as_slice(), 6, 6 + total),
    );
    assert(current_buffer@.subrange(6, 6 + total) =~= body(frame));
    if data_checksum != current_buffer[6 + total] {
        let _ = queue.read();
        assert(queue@ =~= queued.skip(noise + 1));
        return PacketResult::NotSynced;
    }
    discard(queue, FRAME_OVERHEAD + total);
    assert(queue@ =~= queued.skip(noise + frame_length(frame)));

    let packet_type = PacketType::from_base_type(current_buffer[4]);
    if current_buffer[4] == PACKET_TYPE_EVENT && data_size > 0 && current_buffer[6]
        == EVENT_READY {
        let command = transparent_mode_command();
        send(outbound, &command);
    }
    let payload = build_payload(&current_buffer, data_size, optional_size);
    assert(current_buffer@.subrange(6, 6 + data_size) =~= frame.subrange(
        6,
        6 + data_length(frame),
    ));
    assert(current_buffer@.subrange(6 + data_size, 6 + data_size + optional_size)
        =~= frame.subrange(6 + data_length(frame), frame_length(frame) - 1));
    PacketResult::Packet { packet_type, payload }
}

} // verus!
