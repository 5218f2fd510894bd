//! The IQ sample stream: finding the records in a buffer of raw bytes,
//! decoding them, and the life cycle of a capture.
//!
//! A sample is kept as the pair of 32-bit magnitudes that the decoder
//! rebuilds; the component it stands for is the magnitude divided by 2^32.

use crate::queue::Queue;
use crate::queue::Wake;
use crate::usb::buffer_holds;
use crate::usb::is_in_endpoint;
use crate::usb::result_view;
use crate::usb::submit_iso;
use crate::usb::IsoTransfer;
use crate::usb::TransferCallback;
use crate::usb::TransferError;
use crate::usb::TransferState;
use byteorder::BigEndian;
use byteorder::ByteOrder;
use byteorder::LittleEndian;
use vstd::prelude::*;
use vstd::slice::slice_subrange;

verus! {

/// The interface of the board that carries the IQ data.
pub const IQ_INTERFACE: u8 = 0;

/// The endpoint that takes the capture commands.
pub const CONTROL_ENDPOINT: u8 = 0x02;

/// The endpoint that delivers the sample stream.
pub const DATA_ENDPOINT: u8 = 0x86;

/// The command that starts the capture.
pub const START_CAPTURE: [u8; 6] = [0x5a, 0xa5, 0x00, 0x02, 0x41, 0x53];

/// The command that ends the capture.
pub const END_CAPTURE: [u8; 6] = [0x5a, 0xa5, 0x00, 0x02, 0x41, 0x45];

/// The unit in which the board sizes its packets.
pub const PACKET_ATOM: usize = 512;

/// The length of one isochronous packet.
pub const PACKET_LENGTH: usize = PACKET_ATOM * 3;

/// The number of packets in one transfer.
pub const PACKET_COUNT: usize = 2;

/// The length of the transfer buffer: the packets of one transfer, and one
/// packet of slack.
pub const BUFFER_LEN: usize = (PACKET_LENGTH * PACKET_COUNT) + PACKET_LENGTH;

/// The length of one sample record in the stream.
pub const RECORD_LEN: usize = 8;

/// The seconds a capture command may take.
pub const COMMAND_TIMEOUT_SECS: u64 = 1;

/// One sample: the in-phase and the quadrature magnitude, each a 32-bit
/// fraction of full scale.
#[derive(Debug, Copy, Clone, PartialEq, Eq, Structural)]
pub struct IqSample {
    /// In-phase magnitude.
    pub i: u32,
    /// Quadrature magnitude.
    pub q: u32,
}

/// Why no record was found in a buffer.
#[derive(Debug, Copy, Clone, PartialEq, Eq, Structural)]
pub enum SyncError {
    /// No position of the buffer starts a whole record with its marker set.
    NotFound,
}

/// The little-endian 32-bit word made of four bytes, the lowest first.
pub open spec fn le_word(b0: u8, b1: u8, b2: u8, b3: u8) -> u32 {
    (b0 + b1 * 0x100 + b2 * 0x1_0000 + b3 * 0x100_0000) as u32
}

/// The four bytes of a 32-bit word, the highest first.
pub open spec fn be_bytes(word: u32) -> Seq<u8> {
    seq![
        (word / 0x100_0000) as u8,
        (word / 0x1_0000 % 0x100) as u8,
        (word / 0x100 % 0x100) as u8,
        (word % 0x100) as u8,
    ]
}

/// Whether a record carries the framing marker: bit 0 of its second byte.
pub open spec fn framed(record: Seq<u8>) -> bool {
    record.len() >= 2 && record[1] & 0x01 == 0x01
}

/// Whether a whole record with its marker set starts at position `p` of the
/// buffer.
pub open spec fn framed_at(buffer: Seq<u8>, p: int) -> bool {
    0 <= p && p + RECORD_LEN <= buffer.len() && buffer[p + 1] & 0x01 == 0x01
}

/// Whether `p` is the first position of the buffer at which a whole record
/// with its marker set starts.
pub open spec fn first_framed(buffer: Seq<u8>, p: int) -> bool {
    framed_at(buffer, p) && forall|k: int| 0 <= k < p ==> !framed_at(buffer, k)
}

/// Whether the stream can be picked up anywhere in the buffer.
pub open spec fn has_sync(buffer: Seq<u8>) -> bool {
    exists|p: int| framed_at(buffer, p)
}

/// The position at which the stream is picked up, for a buffer in which it
/// can be.
pub open spec fn sync_offset(buffer: Seq<u8>) -> int {
    choose|p: int| first_framed(buffer, p)
}

/// The magnitude that a word of the stream stands for. Its upper half moves
/// up by one bit and loses its top bit, which becomes bit 0 of the lower
/// half: bits 30 to 16 of the word make bits 31 to 17, bit 16 is clear, bits
/// 15 to 1 stay, and bit 31 of the word makes bit 0.
pub open spec fn unfolded(word: u32) -> u32 {
    ((word << 1) & 0xfffe_0000) | (word & 0x0000_fffe) | (word >> 31)
}

/// A word of the stream that stands for the magnitude `value`: bit 0 of the
/// value makes bit 31, bits 31 to 17 make bits 30 to 16, bits 15 to 1 stay,
/// bit 0 is clear.
pub open spec fn folded(value: u32) -> u32 {
    (value << 31) | ((value >> 1) & 0x7fff_0000) | (value & 0x0000_fffe)
}

/// The sample that a record holds: its first word makes the in-phase
/// magnitude, its second word the quadrature magnitude.
pub open spec fn record_sample(record: Seq<u8>) -> IqSample {
    IqSample {
        i: unfolded(le_word(record[0], record[1], record[2], record[3])),
        q: unfolded(le_word(record[4], record[5], record[6], record[7])),
    }
}

/// The samples of a synchronized stretch of bytes: it is cut into records of
/// eight bytes; each record with its marker set gives one sample, in the
/// order of the records; a record without its marker is dropped; what is left
/// after the last whole record is dropped too.
pub open spec fn samples(data: Seq<u8>) -> Seq<IqSample>
    decreases data.len(),
{
    if data.len() < RECORD_LEN {
        Seq::empty()
    } else if framed(data) {
        seq![record_sample(data)] + samples(data.skip(RECORD_LEN as int))
    } else {
        samples(data.skip(RECORD_LEN as int))
    }
}

/// The samples of a buffer as it comes from the device: the samples from the
/// position at which the stream is picked up, and none where it cannot be.
pub open spec fn decoded(buffer: Seq<u8>) -> Seq<IqSample> {
    if has_sync(buffer) {
        samples(buffer.skip(sync_offset(buffer)))
    } else {
        Seq::empty()
    }
}

/// `byteorder::LittleEndian::read_u32`: the word that the first four bytes of
/// `buf` make, the lowest byte first.
#[verifier::external_body]
fn read_u32_le(buf: &[u8]) -> (word: u32)
    requires
        buf@.len() >= 4,
    ensures
        word == le_word(buf@[0], buf@[1], buf@[2], buf@[3]),
{
    LittleEndian::read_u32(buf)
}

/// `byteorder::BigEndian::write_u32`: the four bytes of `word`, the highest
/// first.
#[verifier::external_body]
fn write_u32_be(word: u32) -> (bytes: [u8; 4])
    ensures
        bytes@ == be_bytes(word),
{
    let mut bytes = [0u8; 4];
    BigEndian::write_u32(&mut bytes, word);
    bytes
}

/// Whether the bytes begin with a record that carries the framing marker.
/// Fewer than two bytes carry none.
pub fn valid_packet(buffer: &[u8]) -> (valid: bool)
    ensures
        valid == framed(buffer@),
{
    buffer.len() >= 2 && (buffer[1] & 0x01) == 0x01
}

/// Finds where the stream is picked up: the first position, counted in
/// bytes, at which a whole record with its marker set starts. The search goes
/// byte by byte, since nothing aligns the records with the buffer.
pub fn find_packet(buffer: &[u8]) -> (found: Result<usize, SyncError>)
    ensures
        found is Ok <==> has_sync(buffer@),
        match found {
            Ok(offset) => first_framed(buffer@, offset as int) && offset == sync_offset(buffer@),
            Err(error) => error == SyncError::NotFound,
        },
{
    let len = buffer.len();
    let mut offset: usize = 0;
    while len - offset >= RECORD_LEN
        invariant
            len == buffer@.len(),
            offset <= len,
            forall|k: int| 0 <= k < offset ==> !framed_at(buffer@, k),
        decreases len - offset,
    {
        if valid_packet(slice_subrange(buffer, offset, len)) {
            proof {
                lemma_first_framed_is_sync_offset(buffer@, offset as int);
            }
            return Ok(offset);
        }
        offset += 1;
    }
    Err(SyncError::NotFound)
}

/// The first position at which a record starts is the one at which the
/// stream is picked up: there is no other first one.
pub proof fn lemma_first_framed_is_sync_offset(buffer: Seq<u8>, p: int)
    requires
        first_framed(buffer, p),
    ensures
        has_sync(buffer),
        sync_offset(buffer) == p,
{
    let q = sync_offset(buffer);
    assert(first_framed(buffer, q));
    if q < p {
        assert(!framed_at(buffer, q));
    }
    if p < q {
        assert(!framed_at(buffer, p));
    }
}

/// Rebuilds the magnitude that a word of the stream stands for. The word is
/// split into halves of 16 bits. The top bit of the upper half is moved to
/// bit 0 of the lower half, in place of what stood there; the upper half is
/// then shifted up by one bit; the halves are put together again.
pub fn unfold(word: u32) -> (value: u32)
    ensures
        value == unfolded(word),
{
    let high: u16 = (word >> 16) as u16;
    let low: u16 = (word & 0xffff) as u16;
    let low = if high & 0x8000 == 0x8000 {
        low | 0x0001
    } else {
        low & 0xfffe
    };
    let high = high << 1;
    let value = ((high as u32) << 16) | (low as u32);
    proof {
        assert(((((((word >> 16) as u16) << 1) as u32) << 16) | ((if ((word >> 16) as u16) & 0x8000
            == 0x8000 {
            ((word & 0xffff) as u16) | 0x0001
        } else {
            ((word & 0xffff) as u16) & 0xfffe
        }) as u32)) == unfolded(word)) by (bit_vector);
    }
    value
}

/// Decodes one record: two little-endian words, the in-phase word first, each
/// rebuilt into its magnitude.
pub fn read_packet(packet: &[u8]) -> (sample: IqSample)
    requires
        packet@.len() >= RECORD_LEN,
    ensures
        sample == record_sample(packet@),
{
    let i = read_u32_le(slice_subrange(packet, 0, 4));
    let q = read_u32_le(slice_subrange(packet, 4, 8));
    IqSample { i: unfold(i), q: unfold(q) }
}

/// The record of the output stream for one sample, whose components are
/// given by the bits of their 32-bit floating-point values: the in-phase
/// component and then the quadrature component, each with its highest byte
/// first.
pub open spec fn record_bytes(i_bits: u32, q_bits: u32) -> Seq<u8> {
    be_bytes(i_bits) + be_bytes(q_bits)
}

/// Frames one sample for the output stream.
pub fn sink_record(i_bits: u32, q_bits: u32) -> (record: [u8; 8])
    ensures
        record@ == record_bytes(i_bits, q_bits),
{
    let i = write_u32_be(i_bits);
    let q = write_u32_be(q_bits);
    let record = [i[0], i[1], i[2], i[3], q[0], q[1], q[2], q[3]];
    assert(record@ =~= record_bytes(i_bits, q_bits));
    record
}

/// A queue sized for the samples of one transfer buffer.
pub fn new_queue() -> (queue: Queue<IqSample>)
    ensures
        queue@ == Seq::<IqSample>::empty(),
        !queue.closed(),
        queue.pending_wake() == Wake::Nobody,
{
    Queue::new(BUFFER_LEN / RECORD_LEN)
}

/// What the consumer of the queue does next.
#[derive(Debug, Copy, Clone, PartialEq, Eq, Structural)]
pub enum WriterStep {
    /// Write this sample to the output.
    Sample(IqSample),
    /// Nothing is queued and the queue is open: wait for a wake-up.
    Wait,
    /// Nothing is queued and the queue is closed: the output is complete.
    Finished,
}

/// One step of the consumer: it takes the oldest sample if there is one, and
/// says what is to be done. Samples that are queued are handed out also after
/// the queue was closed; the consumer has finished only when a closed queue
/// is empty.
pub fn write(queue: &mut Queue<IqSample>) -> (step: WriterStep)
    ensures
        old(queue)@.len() > 0 ==> step == WriterStep::Sample(old(queue)@[0]) && final(queue)@
            == old(queue)@.drop_first(),
        old(queue)@.len() == 0 ==> final(queue)@ == old(queue)@ && step == if old(queue).closed() {
            WriterStep::Finished
        } else {
            WriterStep::Wait
        },
        final(queue).closed() == old(queue).closed(),
        final(queue).pending_wake() == old(queue).pending_wake(),
{
    match queue.dequeue() {
        Some(sample) => WriterStep::Sample(sample),
        None => if queue.is_closed() {
            WriterStep::Finished
        } else {
            WriterStep::Wait
        },
    }
}

/// Takes out of the queue all that it holds, the oldest sample first, and
/// leaves it empty.
pub fn flush(queue: &mut Queue<IqSample>) -> (drained: Vec<IqSample>)
    ensures
        drained@ == old(queue)@,
        final(queue)@ == Seq::<IqSample>::empty(),
        final(queue).closed() == old(queue).closed(),
        final(queue).pending_wake() == old(queue).pending_wake(),
{
    let mut drained: Vec<IqSample> = Vec::new();
    loop
        invariant
            drained@ + queue@ == old(queue)@,
            queue.closed() == old(queue).closed(),
            queue.pending_wake() == old(queue).pending_wake(),
        ensures
            queue@.len() == 0,
        decreases queue@.len(),
    {
        let ghost held = queue@;
        match queue.dequeue() {
            Some(sample) => {
                drained.push(sample);
                assert(drained@ + queue@ == old(queue)@) by {
                    assert(seq![held[0]] + held.drop_first() == held);
                    assert(drained@ == drained@.drop_last() + seq![held[0]]);
                    assert(drained@ + queue@ == drained@.drop_last() + held);
                }
            },
            None => {
                break ;
            },
        }
    }
    assert(drained@ + queue@ == drained@);
    drained
}

/// A write on the control channel of the board.
#[derive(Debug, Copy, Clone, PartialEq, Eq)]
pub struct Command {
    /// The endpoint to write to.
    pub endpoint: u8,
    /// The bytes to write.
    pub data: [u8; 6],
    /// The seconds the write may take.
    pub timeout_secs: u64,
}

/// The write that starts the capture.
pub open spec fn start_command() -> Command {
    Command { endpoint: CONTROL_ENDPOINT, data: START_CAPTURE, timeout_secs: COMMAND_TIMEOUT_SECS }
}

/// The write that ends the capture.
pub open spec fn end_command() -> Command {
    Command { endpoint: CONTROL_ENDPOINT, data: END_CAPTURE, timeout_secs: COMMAND_TIMEOUT_SECS }
}

/// Why a capture did not start.
#[derive(Debug, Copy, Clone, PartialEq, Eq, Structural)]
pub enum StartError {
    /// The receiver is running already.
    AlreadyRunning,
    /// The start command could not be written.
    Command(TransferError),
    /// The first transfer could not be submitted.
    Submit(TransferError),
}

/// What a receiver is, as far as its behaviour goes: the two flags of the
/// capture and the state of its queue.
pub struct Capture {
    /// Whether a capture is running.
    pub running: bool,
    /// Whether the next buffer is to be discarded: it may hold bytes from
    /// before the start command took effect.
    pub skip_packet: bool,
    /// The samples in the queue, the oldest first.
    pub queue: Seq<IqSample>,
    /// Whether the queue is closed.
    pub closed: bool,
    /// The wake-up that the consumers of the queue are owed.
    pub wake: Wake,
}

impl Capture {
    /// The receiver after a call of `start`, and what the call returns. An
    /// idle receiver starts running, with the next buffer to be discarded, and
    /// asks for the start command to be written. A running receiver stays as
    /// it is and refuses.
    pub open spec fn start(self) -> (Capture, Result<Command, StartError>) {
        if self.running {
            (self, Err(StartError::AlreadyRunning))
        } else {
            (Capture { running: true, skip_packet: true, ..self }, Ok(start_command()))
        }
    }

    /// The receiver after a start that failed: idle again.
    pub open spec fn rolled_back(self) -> Capture {
        Capture { running: false, ..self }
    }

    /// The receiver after a call of `stop`, and what the call returns. A
    /// running receiver becomes idle, closes its queue and asks for the end
    /// command to be written. An idle receiver stays as it is, and nothing is
    /// to be written.
    pub open spec fn stop(self) -> (Capture, Option<Command>) {
        if self.running {
            (
                Capture { running: false, closed: true, wake: Wake::All, ..self },
                Some(end_command()),
            )
        } else {
            (self, None)
        }
    }

    /// The receiver after `added` went into its queue, sample by sample.
    pub open spec fn enqueued(self, added: Seq<IqSample>) -> Capture {
        Capture {
            queue: self.queue + added,
            wake: if added.len() > 0 && self.queue.len() == 0 {
                self.wake.join(Wake::One)
            } else {
                self.wake
            },
            ..self
        }
    }

    /// The receiver after the callback for one transfer, and what the
    /// callback answers. An error ends the capture. The first buffer after a
    /// start is discarded. Of every other buffer the samples go into the
    /// queue. But for an error, the answer is whether the capture is running.
    pub open spec fn transfer(self, r: Result<Seq<u8>, TransferError>) -> (Capture, bool) {
        match r {
            Err(_) => (Capture { running: false, ..self }, false),
            Ok(buffer) => if self.skip_packet {
                (Capture { skip_packet: false, ..self }, self.running)
            } else {
                (self.enqueued(decoded(buffer)), self.running)
            },
        }
    }
}

/// Why the first transfer cannot be submitted after the start command was
/// written with `written`, into a buffer of `buffer_len` bytes; `None` where
/// it can.
pub open spec fn start_failure(written: Result<(), TransferError>, buffer_len: usize) -> Option<
    StartError,
> {
    match written {
        Err(error) => Some(StartError::Command(error)),
        Ok(()) => if buffer_holds(buffer_len, PACKET_COUNT, PACKET_LENGTH) {
            None
        } else {
            Some(StartError::Submit(TransferError::InvalidParam))
        },
    }
}

/// The capture side of the pipeline: it starts and stops the capture on the
/// board, and turns the buffers that the transfers deliver into samples in
/// its queue.
pub struct Receiver {
    running: bool,
    skip_packet: bool,
    queue: Queue<IqSample>,
}

impl View for Receiver {
    type V = Capture;

    open spec fn view(&self) -> Capture {
        Capture {
            running: self.running(),
            skip_packet: self.skip_packet(),
            queue: self.spec_queue()@,
            closed: self.spec_queue().closed(),
            wake: self.spec_queue().pending_wake(),
        }
    }
}

/// Puts the samples of the synchronized bytes from `start` on into the
/// queue, in their order.
fn enqueue_samples(data: &[u8], start: usize, queue: &mut Queue<IqSample>)
    requires
        start <= data@.len(),
    ensures
        final(queue)@ == old(queue)@ + samples(data@.skip(start as int)),
        final(queue).closed() == old(queue).closed(),
        final(queue).pending_wake() == if samples(data@.skip(start as int)).len() > 0 && old(
            queue,
        )@.len() == 0 {
            old(queue).pending_wake().join(Wake::One)
        } else {
            old(queue).pending_wake()
        },
{
    let len = data.len();
    let ghost all = samples(data@.skip(start as int));
    let ghost before = *queue;
    let ghost mut done: Seq<IqSample> = Seq::empty();
    let mut pos = start;
    while len - pos >= RECORD_LEN
        invariant
            len == data@.len(),
            start <= pos <= len,
            all == done + samples(data@.skip(pos as int)),
            queue@ == before@ + done,
            queue.closed() == before.closed(),
            queue.pending_wake() == if done.len() > 0 && before@.len() == 0 {
                before.pending_wake().join(Wake::One)
            } else {
                before.pending_wake()
            },
        decreases len - pos,
    {
        let record = slice_subrange(data, pos, pos + RECORD_LEN);
        proof {
            let rest = data@.skip(pos as int);
            assert(rest.skip(RECORD_LEN as int) == data@.skip(pos + RECORD_LEN));
            assert(framed(record@) == framed(rest));
            assert(record_sample(record@) == record_sample(rest));
        }
        if valid_packet(record) {
            let sample = read_packet(record);
            queue.enqueue(sample);
            proof {
                assert(done + (seq![sample] + samples(data@.skip(pos + RECORD_LEN))) == done.push(
                    sample,
                ) + samples(data@.skip(pos + RECORD_LEN)));
                assert(before@ + done.push(sample) == (before@ + done).push(sample));
                done = done.push(sample);
            }
        }
        pos += RECORD_LEN;
    }
    proof {
        assert(done + Seq::<IqSample>::empty() == done);
    }
}

impl Receiver {
    /// Whether a capture is running.
    pub closed spec fn running(&self) -> bool {
        self.running
    }

    /// Whether the next buffer is to be discarded.
    pub closed spec fn skip_packet(&self) -> bool {
        self.skip_packet
    }

    /// The queue that takes the samples.
    pub closed spec fn spec_queue(&self) -> Queue<IqSample> {
        self.queue
    }

    /// An idle receiver that will put its samples into `queue`.
    pub fn new(queue: Queue<IqSample>) -> (receiver: Receiver)
        ensures
            receiver.spec_queue() == queue,
            !receiver@.running,
            receiver@.skip_packet,
    {
        Receiver { running: false, skip_packet: true, queue }
    }

    /// Whether a capture is running.
    pub fn is_running(&self) -> (running: bool)
        ensures
            running == self@.running,
    {
        self.running
    }

    /// The queue that takes the samples.
    pub fn queue(&self) -> (queue: &Queue<IqSample>)
        ensures
            *queue == self.spec_queue(),
    {
        &self.queue
    }

    /// The queue that takes the samples, for the consumer to take them out.
    pub fn queue_mut(&mut self) -> (queue: &mut Queue<IqSample>)
        ensures
            *queue == old(self).spec_queue(),
            final(self).spec_queue() == *final(queue),
            final(self).running() == old(self).running(),
            final(self).skip_packet() == old(self).skip_packet(),
    {
        &mut self.queue
    }

    /// Starts a capture, if none is running: the receiver is running from now
    /// on, and the command that is returned has to be written to the board.
    /// Tell [`Receiver::command_sent`] how the write went.
    pub fn start(&mut self) -> (command: Result<Command, StartError>)
        ensures
            final(self)@ == old(self)@.start().0,
            command == old(self)@.start().1,
    {
        if self.running {
            Err(StartError::AlreadyRunning)
        } else {
            self.running = true;
            self.skip_packet = true;
            Ok(
                Command {
                    endpoint: CONTROL_ENDPOINT,
                    data: START_CAPTURE,
                    timeout_secs: COMMAND_TIMEOUT_SECS,
                },
            )
        }
    }

    /// Goes on with a start once the start command has been written, with
    /// `written` as the outcome: prepares the first transfer from the data
    /// endpoint into a buffer of `buffer_len` bytes. Where the write failed,
    /// or the buffer is too short for the transfer, the start has failed and
    /// the receiver is idle again. What is returned has to be submitted to
    /// the native library; tell [`Receiver::transfer_submitted`] how that
    /// went.
    pub fn command_sent(&mut self, written: Result<(), TransferError>, buffer_len: usize) -> (submit:
        Result<IsoTransfer, StartError>)
        ensures
            final(self)@ == if start_failure(written, buffer_len) is Some {
                old(self)@.rolled_back()
            } else {
                old(self)@
            },
            match submit {
                Ok(transfer) => {
                    &&& start_failure(written, buffer_len) is None
                    &&& transfer.endpoint() == DATA_ENDPOINT
                    &&& transfer.num_packets() == PACKET_COUNT
                    &&& transfer.packet_len() == PACKET_LENGTH
                    &&& transfer.timeout_ms() == 0
                    &&& transfer.state() == TransferState::Idle
                },
                Err(error) => start_failure(written, buffer_len) == Some(error),
            },
    {
        proof {
            assert(is_in_endpoint(DATA_ENDPOINT)) by (bit_vector);
        }
        match written {
            Err(error) => {
                self.running = false;
                Err(StartError::Command(error))
            },
            Ok(()) => match submit_iso(DATA_ENDPOINT, buffer_len, PACKET_COUNT, PACKET_LENGTH, 0) {
                Ok(transfer) => Ok(transfer),
                Err(error) => {
                    self.running = false;
                    Err(StartError::Submit(error))
                },
            },
        }
    }

    /// Ends a start once the first transfer has been submitted to the native
    /// library, with `submitted` as the outcome. On success the capture is
    /// under way. On an error the start has failed and the receiver is idle
    /// again.
    pub fn transfer_submitted(&mut self, submitted: Result<(), TransferError>) -> (started: Result<
        (),
        StartError,
    >)
        ensures
            match submitted {
                Ok(()) => started == Ok::<(), StartError>(()) && final(self)@ == old(self)@,
                Err(error) => started == Err::<(), StartError>(StartError::Submit(error))
                    && final(self)@ == old(self)@.rolled_back(),
            },
    {
        match submitted {
            Ok(()) => Ok(()),
            Err(error) => {
                self.running = false;
                Err(StartError::Submit(error))
            },
        }
    }

    /// Stops the capture, if one is running: the receiver is idle from now
    /// on, its queue is closed, and the command that is returned has to be
    /// written to the board. On an idle receiver nothing changes and nothing
    /// is to be written.
    pub fn stop(&mut self) -> (command: Option<Command>)
        ensures
            final(self)@ == old(self)@.stop().0,
            command == old(self)@.stop().1,
    {
        if self.running {
            self.running = false;
            self.queue.close();
            Some(
                Command {
                    endpoint: CONTROL_ENDPOINT,
                    data: END_CAPTURE,
                    timeout_secs: COMMAND_TIMEOUT_SECS,
                },
            )
        } else {
            None
        }
    }
}

impl TransferCallback for Receiver {
    open spec fn answers(
        &self,
        r: Result<Seq<u8>, TransferError>,
        after: &Self,
        resubmit: bool,
    ) -> bool {
        after@ == self@.transfer(r).0 && resubmit == self@.transfer(r).1
    }

    /// Takes the outcome of one transfer. An error ends the capture, and the
    /// transfer is not to be submitted again. The first buffer after a start
    /// is discarded. From every other buffer the samples are decoded and
    /// queued; a buffer in which the stream cannot be picked up gives none.
    /// The transfer is to be submitted again as long as the capture is
    /// running.
    fn callback(&mut self, r: Result<&[u8], TransferError>) -> (resubmit: bool) {
        match r {
            Err(_) => {
                self.running = false;
                false
            },
            Ok(buffer) => {
                if self.skip_packet {
                    self.skip_packet = false;
                } else {
                    match find_packet(buffer) {
                        Ok(offset) => {
                            enqueue_samples(buffer, offset, &mut self.queue);
                        },
                        Err(_) => {
                            assert(self.queue@ + Seq::<IqSample>::empty() == self.queue@);
                        },
                    }
                }
                self.running
            },
        }
    }
}

/// The bytes of a 32-bit word, the lowest first.
pub open spec fn le_bytes(word: u32) -> Seq<u8> {
    seq![
        (word % 0x100) as u8,
        (word / 0x100 % 0x100) as u8,
        (word / 0x1_0000 % 0x100) as u8,
        (word / 0x100_0000) as u8,
    ]
}

/// The record of the stream that stands for a sample: the words that stand
/// for its two magnitudes, the in-phase word first, each with its lowest byte
/// first.
pub open spec fn sample_record(sample: IqSample) -> Seq<u8> {
    le_bytes(folded(sample.i)) + le_bytes(folded(sample.q))
}

/// Whether a magnitude is one that the decoder can give: bit 16 is clear.
pub open spec fn representable(value: u32) -> bool {
    value & 0x0001_0000 == 0
}

/// Every magnitude that the decoder gives has bit 16 clear, and the word
/// that stands for such a magnitude decodes to it again.
pub proof fn lemma_unfold_inverts_fold(value: u32)
    ensures
        representable(unfolded(value)),
        representable(value) ==> unfolded(folded(value)) == value,
{
    assert(unfolded(value) & 0x0001_0000 == 0) by (bit_vector);
    assert(value & 0x0001_0000 == 0 ==> unfolded(folded(value)) == value) by (bit_vector);
}

/// Reading the bytes of a word, the lowest first, gives the word.
pub proof fn lemma_le_word_of_le_bytes(word: u32)
    ensures
        le_word(le_bytes(word)[0], le_bytes(word)[1], le_bytes(word)[2], le_bytes(word)[3])
            == word,
{
    assert(((word % 0x100) as u8 + (word / 0x100 % 0x100) as u8 * 0x100 + (word / 0x1_0000 % 0x100) as u8
        * 0x1_0000 + (word / 0x100_0000) as u8 * 0x100_0000) as u32 == word) by (bit_vector);
}

/// Decoding inverts encoding: the record that stands for a sample decodes to
/// that sample, whenever both magnitudes are ones that the decoder can give.
/// The record carries the framing marker if and only if bit 8 of the in-phase
/// magnitude is set.
pub proof fn lemma_decode_round_trip(sample: IqSample)
    requires
        representable(sample.i),
        representable(sample.q),
    ensures
        sample_record(sample).len() == RECORD_LEN,
        record_sample(sample_record(sample)) == sample,
        framed(sample_record(sample)) <==> sample.i & 0x0000_0100 != 0,
{
    let record = sample_record(sample);
    let wi = folded(sample.i);
    let wq = folded(sample.q);
    assert(record.len() == 8);
    assert(record[0] == le_bytes(wi)[0] && record[1] == le_bytes(wi)[1] && record[2] == le_bytes(
        wi,
    )[2] && record[3] == le_bytes(wi)[3]);
    assert(record[4] == le_bytes(wq)[0] && record[5] == le_bytes(wq)[1] && record[6] == le_bytes(
        wq,
    )[2] && record[7] == le_bytes(wq)[3]);
    lemma_le_word_of_le_bytes(wi);
    lemma_le_word_of_le_bytes(wq);
    lemma_unfold_inverts_fold(sample.i);
    lemma_unfold_inverts_fold(sample.q);
    let i = sample.i;
    assert(((folded(i) / 0x100 % 0x100) as u8 & 0x01 == 0x01) <==> (i & 0x0000_0100 != 0))
        by (bit_vector);
}

/// A second `start` without a `stop` in between is refused and changes
/// nothing: of two starts in a row, at most the first asks for the start
/// command to be written.
pub proof fn lemma_start_twice(capture: Capture)
    ensures
        capture.start().0.start().1 == Err::<Command, StartError>(StartError::AlreadyRunning),
        capture.start().0.start().0 == capture.start().0,
        !capture.running ==> capture.start().1 == Ok::<Command, StartError>(start_command()),
{
}

/// `stop` is idempotent: a second `stop` in a row changes nothing and asks
/// for no command to be written.
pub proof fn lemma_stop_twice(capture: Capture)
    ensures
        capture.stop().0.stop().1 == None::<Command>,
        capture.stop().0.stop().0 == capture.stop().0,
        !capture.stop().0.running,
{
}

/// After a `stop` the callback declines to go on: the transfer that was in
/// flight is not submitted again, whatever it delivered.
pub proof fn lemma_stop_ends_chain(capture: Capture, r: Result<Seq<u8>, TransferError>)
    ensures
        !capture.stop().0.transfer(r).1,
        !capture.stop().0.transfer(r).0.running,
{
}

/// Samples reach the queue in the order in which they were decoded: those of
/// one buffer in the order of its records, and behind those of every buffer
/// that completed before it.
pub proof fn lemma_buffers_in_order(capture: Capture, first: Seq<u8>, second: Seq<u8>)
    requires
        !capture.skip_packet,
    ensures
        capture.transfer(Ok(first)).0.transfer(Ok(second)).0.queue == capture.queue + decoded(first)
            + decoded(second),
{
}

/// A buffer with a record somewhere gives one sample for each record with its
/// marker set, counted from the first one, and at least that first one; a
/// buffer without any gives none.
pub proof fn lemma_decoded_from_first_record(buffer: Seq<u8>, p: int)
    requires
        first_framed(buffer, p),
    ensures
        decoded(buffer) == samples(buffer.skip(p)),
        decoded(buffer).len() >= 1,
        decoded(buffer)[0] == record_sample(buffer.skip(p)),
{
    lemma_first_framed_is_sync_offset(buffer, p);
    let data = buffer.skip(p);
    assert(data.len() >= RECORD_LEN);
    assert(framed(data));
}

} // verus!
