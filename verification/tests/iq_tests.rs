use ar2300::iq::find_packet;
use ar2300::iq::flush;
use ar2300::iq::new_queue;
use ar2300::iq::read_packet;
use ar2300::iq::sink_record;
use ar2300::iq::unfold;
use ar2300::iq::valid_packet;
use ar2300::iq::Command;
use ar2300::iq::IqSample;
use ar2300::iq::Receiver;
use ar2300::iq::StartError;
use ar2300::iq::SyncError;
use ar2300::iq::WriterStep;
use ar2300::queue::Wake;
use ar2300::usb::TransferCallback;
use ar2300::usb::TransferError;
use ar2300::usb::TransferState;
use byteorder::BigEndian;
use byteorder::ByteOrder;
use byteorder::LittleEndian;

const BASE: f32 = 2f32 * 2147483648.0f32;

fn normalized(word: u32) -> f32 {
    (word as f32) / BASE
}

/// The word of the stream that decodes to `value`, with bit 0 clear.
fn fold(value: u32) -> u32 {
    (value << 31) | ((value >> 1) & 0x7fff_0000) | (value & 0x0000_fffe)
}

fn record(i: u32, q: u32) -> [u8; 8] {
    let mut bytes = [0u8; 8];
    LittleEndian::write_u32(&mut bytes[0..4], fold(i));
    LittleEndian::write_u32(&mut bytes[4..8], fold(q));
    bytes
}

fn running_receiver() -> Receiver {
    let mut r = Receiver::new(new_queue());
    assert!(r.start().is_ok());
    assert!(r.callback(Ok(&[])));
    r
}

fn drain(r: &mut Receiver) -> Vec<IqSample> {
    flush(r.queue_mut())
}

#[test]
fn constants_of_the_board() {
    assert_eq!(ar2300::iq::IQ_INTERFACE, 0);
    assert_eq!(ar2300::iq::CONTROL_ENDPOINT, 0x02);
    assert_eq!(ar2300::iq::DATA_ENDPOINT, 0x86);
    assert_eq!(ar2300::iq::START_CAPTURE, [0x5a, 0xa5, 0x00, 0x02, 0x41, 0x53]);
    assert_eq!(ar2300::iq::END_CAPTURE, [0x5a, 0xa5, 0x00, 0x02, 0x41, 0x45]);
    assert_eq!(ar2300::iq::PACKET_LENGTH, 1536);
    assert_eq!(ar2300::iq::PACKET_COUNT, 2);
    assert_eq!(ar2300::iq::BUFFER_LEN, 4608);
    assert_eq!(ar2300::iq::RECORD_LEN, 8);
}

#[test]
fn marker_is_bit_0_of_the_second_byte() {
    assert!(valid_packet(&[0x00, 0x01, 0, 0, 0, 0, 0, 0]));
    assert!(valid_packet(&[0x00, 0xff]));
    assert!(valid_packet(&[0xfe, 0x03, 0xfe]));
    assert!(!valid_packet(&[0x01, 0x00, 0x01, 0x01]));
    assert!(!valid_packet(&[0xff, 0xfe, 0xff, 0xff, 0xff, 0xff, 0xff, 0xff]));
}

#[test]
fn fewer_than_two_bytes_carry_no_marker() {
    assert!(!valid_packet(&[]));
    assert!(!valid_packet(&[0x01]));
    assert!(!valid_packet(&[0xff]));
}

#[test]
fn find_packet_gives_the_first_offset() {
    let mut buffer = vec![0u8; 32];
    buffer[6] = 0x01;
    buffer[14] = 0x01;
    assert_eq!(find_packet(&buffer), Ok(5));
    buffer[6] = 0;
    assert_eq!(find_packet(&buffer), Ok(13));
    buffer[1] = 0x81;
    assert_eq!(find_packet(&buffer), Ok(0));
}

#[test]
fn find_packet_is_not_aligned_to_records() {
    for offset in 0..=24usize {
        let mut buffer = vec![0xfeu8; 32];
        buffer[offset + 1] = 0x01;
        assert_eq!(find_packet(&buffer), Ok(offset));
    }
}

#[test]
fn find_packet_takes_the_last_whole_window() {
    let mut buffer = vec![0u8; 20];
    buffer[13] = 0x01;
    assert_eq!(find_packet(&buffer), Ok(12));
    let mut exact = [0u8; 8];
    exact[1] = 0x01;
    assert_eq!(find_packet(&exact), Ok(0));
}

#[test]
fn find_packet_needs_eight_bytes_after_the_offset() {
    let mut buffer = vec![0u8; 20];
    buffer[14] = 0x01;
    assert_eq!(find_packet(&buffer), Err(SyncError::NotFound));
    buffer[19] = 0xff;
    assert_eq!(find_packet(&buffer), Err(SyncError::NotFound));
}

#[test]
fn find_packet_fails_without_a_marker() {
    assert_eq!(find_packet(&[0u8; 64]), Err(SyncError::NotFound));
    assert_eq!(find_packet(&[0xfeu8; 4608]), Err(SyncError::NotFound));
    let mut only_first = [0u8; 16];
    only_first[0] = 0xff;
    assert_eq!(find_packet(&only_first), Err(SyncError::NotFound));
}

#[test]
fn find_packet_fails_on_short_buffers() {
    assert_eq!(find_packet(&[]), Err(SyncError::NotFound));
    assert_eq!(find_packet(&[0xff]), Err(SyncError::NotFound));
    assert_eq!(find_packet(&[0xff; 7]), Err(SyncError::NotFound));
}

#[test]
fn unfold_moves_the_top_bit_to_bit_0() {
    assert_eq!(unfold(0x0000_0000), 0x0000_0000);
    assert_eq!(unfold(0x8000_0000), 0x0000_0001);
    assert_eq!(unfold(0x0000_0001), 0x0000_0000);
    assert_eq!(unfold(0x8000_0001), 0x0000_0001);
    assert_eq!(unfold(0x0001_0000), 0x0002_0000);
    assert_eq!(unfold(0x4000_0000), 0x8000_0000);
    assert_eq!(unfold(0x0000_fffe), 0x0000_fffe);
    assert_eq!(unfold(0x0000_ffff), 0x0000_fffe);
    assert_eq!(unfold(0x7fff_ffff), 0xfffe_fffe);
    assert_eq!(unfold(0xffff_ffff), 0xfffe_ffff);
    assert_eq!(unfold(0x1234_5678), 0x2468_5678);
    assert_eq!(unfold(0x9234_5679), 0x2468_5679);
}

#[test]
fn unfold_follows_the_halves() {
    let words = [0u32, 1, 0x100, 0xdead_beef, 0x8000_8000, 0x7fff_0001, 0xffff_0000, 0x0001_ffff];
    for n in words {
        let mut high = (n >> 16) as u16;
        let mut low = n as u16;
        if high & 0x8000 == 0x8000 {
            low |= 0x0001;
        } else {
            low &= 0xfffe;
        }
        high <<= 1;
        assert_eq!(unfold(n), ((high as u32) << 16) | (low as u32));
    }
}

#[test]
fn read_packet_reads_little_endian_words() {
    let sample = read_packet(&[0x78, 0x56, 0x34, 0x12, 0x00, 0x00, 0x00, 0x80]);
    assert_eq!(sample, IqSample { i: 0x2468_5678, q: 0x0000_0001 });
    let sample = read_packet(&[0x02, 0x00, 0x00, 0x00, 0x00, 0x00, 0x00, 0x40]);
    assert_eq!(sample, IqSample { i: 2, q: 0x8000_0000 });
}

#[test]
fn read_packet_looks_at_the_first_record_only() {
    let sample = read_packet(&[0x00, 0x01, 0x00, 0x00, 0x04, 0x00, 0x00, 0x00, 0xff, 0xff, 0xff]);
    assert_eq!(sample, IqSample { i: 0x100, q: 4 });
}

#[test]
fn read_packet_normalizes_to_a_fraction() {
    let sample = read_packet(&[0x00, 0x00, 0x00, 0x40, 0x00, 0x00, 0x00, 0x20]);
    assert_eq!(normalized(sample.i), 0.5);
    assert_eq!(normalized(sample.q), 0.25);
    let zero = read_packet(&[0u8; 8]);
    assert_eq!(normalized(zero.i), 0.0);
    assert_eq!(normalized(zero.q), 0.0);
}

#[test]
fn decode_round_trip() {
    let values = [
        0x0000_0100u32,
        0x0000_0101,
        0x8000_0100,
        0xfffe_fffe,
        0xfffe_ffff,
        0x1234_5678 & !0x0001_0000,
        0x4000_0000,
        0x0002_0000,
    ];
    for i in values {
        for q in values {
            let bytes = record(i, q);
            let sample = read_packet(&bytes);
            assert_eq!(sample, IqSample { i, q });
            assert!((normalized(sample.i) - normalized(i)).abs() <= f32::EPSILON);
            assert!((normalized(sample.q) - normalized(q)).abs() <= f32::EPSILON);
            assert_eq!(valid_packet(&bytes), i & 0x100 != 0);
        }
    }
}

#[test]
fn decoded_magnitudes_have_bit_16_clear() {
    for n in [0u32, 0xffff_ffff, 0x0001_0000, 0x8000_0000, 0x0000_8000, 0xdead_beef] {
        assert_eq!(unfold(n) & 0x0001_0000, 0);
    }
}

#[test]
fn stale_prefix_is_skipped_and_invalid_record_dropped() {
    let mut buffer = Vec::new();
    buffer.extend_from_slice(&[0u8; 8]);
    buffer.extend_from_slice(&[0x00, 0x01, 0x00, 0x00, 0x00, 0x00, 0x00, 0x00]);
    buffer.extend_from_slice(&[0xff, 0xff, 0xff, 0x7f, 0xff, 0xff, 0xff, 0x7f]);
    buffer.extend_from_slice(&[0xff, 0xfe, 0xff, 0x7f, 0xff, 0xff, 0xff, 0x7f]);
    assert_eq!(buffer.len(), 32);
    let buffer = &buffer[..32];

    assert_eq!(find_packet(buffer), Ok(8));
    let mut r = running_receiver();
    assert!(r.callback(Ok(buffer)));
    let samples = drain(&mut r);
    assert_eq!(samples.len(), 2);
    assert_eq!(samples[0], IqSample { i: 0x100, q: 0 });
    assert_eq!(samples[1], IqSample { i: 0xfffe_fffe, q: 0xfffe_fffe });
    assert!(normalized(samples[0].i).abs() < 1e-6);
    assert_eq!(normalized(samples[0].q), 0.0);
    assert!((normalized(samples[1].i) - 1.0).abs() < 1e-4);
    assert!(normalized(samples[1].i) < 1.0 || normalized(samples[1].i) == 1.0);
}

#[test]
fn synthetic_buffer_of_stale_bytes_and_three_records() {
    let mut buffer = Vec::new();
    buffer.extend_from_slice(&[0u8; 8]);
    buffer.extend_from_slice(&[0x00, 0x01, 0x00, 0x00, 0x00, 0x00, 0x00, 0x00]);
    buffer.extend_from_slice(&[0xff, 0xff, 0xff, 0x7f, 0xff, 0xff, 0xff, 0x7f]);
    let stream = &buffer[..24];
    assert_eq!(find_packet(stream), Ok(8));
    let mut r = running_receiver();
    assert!(r.callback(Ok(stream)));
    assert_eq!(drain(&mut r).len(), 2);
}

#[test]
fn records_are_cut_from_the_offset_on() {
    let mut buffer = vec![0u8; 3];
    buffer.extend_from_slice(&record(0x0000_0100, 0x0000_0002));
    buffer.extend_from_slice(&record(0x0000_0000, 0x0000_0004));
    buffer.extend_from_slice(&record(0x8000_0101, 0xfffe_fffe));
    buffer.extend_from_slice(&[0x00, 0x01, 0x02]);
    let mut r = running_receiver();
    assert!(r.callback(Ok(&buffer)));
    assert_eq!(
        drain(&mut r),
        vec![
            IqSample { i: 0x0000_0100, q: 0x0000_0002 },
            IqSample { i: 0x8000_0101, q: 0xfffe_fffe },
        ]
    );
}

#[test]
fn trailing_partial_record_is_dropped() {
    let mut buffer = Vec::new();
    buffer.extend_from_slice(&record(0x100, 6));
    buffer.extend_from_slice(&[0x00, 0x01, 0x00, 0x00, 0x00, 0x00, 0x00]);
    let mut r = running_receiver();
    assert!(r.callback(Ok(&buffer)));
    assert_eq!(drain(&mut r), vec![IqSample { i: 0x100, q: 6 }]);
    assert!(r.callback(Ok(&buffer[8..])));
    assert_eq!(drain(&mut r), vec![]);
}

#[test]
fn buffer_without_a_record_gives_no_sample_and_goes_on() {
    let mut r = running_receiver();
    assert!(r.callback(Ok(&[0u8; 64])));
    assert!(r.queue().is_empty());
    assert!(r.is_running());
    assert!(r.callback(Ok(&[])));
    assert!(r.queue().is_empty());
}

#[test]
fn samples_of_successive_buffers_keep_their_order() {
    let mut r = running_receiver();
    let mut first = Vec::new();
    first.extend_from_slice(&record(0x100, 2));
    first.extend_from_slice(&record(0x102, 4));
    let mut second = vec![0u8; 5];
    second.extend_from_slice(&record(0x104, 6));
    assert!(r.callback(Ok(&first)));
    assert!(r.callback(Ok(&second)));
    assert_eq!(
        drain(&mut r),
        vec![
            IqSample { i: 0x100, q: 2 },
            IqSample { i: 0x102, q: 4 },
            IqSample { i: 0x104, q: 6 },
        ]
    );
}

#[test]
fn first_buffer_after_start_is_discarded() {
    let mut r = Receiver::new(new_queue());
    assert!(r.start().is_ok());
    let buffer = record(0x100, 2);
    assert!(r.callback(Ok(&buffer)));
    assert!(r.queue().is_empty());
    assert!(r.callback(Ok(&buffer)));
    assert_eq!(drain(&mut r), vec![IqSample { i: 0x100, q: 2 }]);
}

#[test]
fn first_buffer_after_a_restart_is_discarded_again() {
    let mut r = running_receiver();
    let buffer = record(0x100, 2);
    assert!(r.callback(Ok(&buffer)));
    assert!(r.stop().is_some());
    assert!(r.start().is_ok());
    let _ = drain(&mut r);
    assert!(r.callback(Ok(&buffer)));
    assert!(r.queue().is_empty());
    assert!(r.callback(Ok(&buffer)));
    assert_eq!(drain(&mut r).len(), 1);
}

#[test]
fn callback_wakes_a_consumer_of_an_empty_queue() {
    let mut r = running_receiver();
    let mut buffer = Vec::new();
    buffer.extend_from_slice(&record(0x100, 2));
    buffer.extend_from_slice(&record(0x100, 4));
    assert!(r.callback(Ok(&buffer)));
    assert_eq!(r.queue_mut().take_wake(), Wake::One);
    assert!(r.callback(Ok(&buffer)));
    assert_eq!(r.queue_mut().take_wake(), Wake::Nobody);
    assert!(r.callback(Ok(&[0u8; 16])));
    assert_eq!(r.queue_mut().take_wake(), Wake::Nobody);
}

#[test]
fn every_transfer_error_ends_the_capture() {
    let errors = [
        TransferError::Io,
        TransferError::InvalidParam,
        TransferError::Access,
        TransferError::NoDevice,
        TransferError::NotFound,
        TransferError::Busy,
        TransferError::Timeout,
        TransferError::Overflow,
        TransferError::Pipe,
        TransferError::Interrupted,
        TransferError::NoMem,
        TransferError::NotSupported,
        TransferError::BadDescriptor,
        TransferError::Other,
    ];
    for error in errors {
        let mut r = running_receiver();
        assert!(!r.callback(Err(error)));
        assert!(!r.is_running());
        assert!(r.queue().is_empty());
        assert!(!r.queue().is_closed());
    }
}

#[test]
fn error_before_the_first_buffer_keeps_the_skip() {
    let mut r = Receiver::new(new_queue());
    assert!(r.start().is_ok());
    assert!(!r.callback(Err(TransferError::Io)));
    let buffer = record(0x100, 2);
    assert!(!r.callback(Ok(&buffer)));
    assert!(r.queue().is_empty());
}

#[test]
fn new_receiver_is_idle() {
    let mut r = Receiver::new(new_queue());
    assert!(!r.is_running());
    assert!(r.queue().is_empty());
    assert!(!r.queue().is_closed());
    assert!(!r.callback(Ok(&record(0x100, 2))));
    assert!(r.queue().is_empty());
}

#[test]
fn start_asks_for_the_start_command() {
    let mut r = Receiver::new(new_queue());
    assert_eq!(
        r.start(),
        Ok(Command { endpoint: 0x02, data: [0x5a, 0xa5, 0x00, 0x02, 0x41, 0x53], timeout_secs: 1 })
    );
    assert!(r.is_running());
}

#[test]
fn second_start_is_refused_and_sends_nothing() {
    let mut r = Receiver::new(new_queue());
    assert!(r.start().is_ok());
    assert_eq!(r.start(), Err(StartError::AlreadyRunning));
    assert_eq!(r.start(), Err(StartError::AlreadyRunning));
    assert!(r.is_running());
}

#[test]
fn start_after_stop_is_accepted() {
    let mut r = Receiver::new(new_queue());
    assert!(r.start().is_ok());
    assert!(r.stop().is_some());
    assert!(r.start().is_ok());
    assert!(r.is_running());
}

#[test]
fn command_sent_prepares_the_first_transfer() {
    let mut r = Receiver::new(new_queue());
    assert!(r.start().is_ok());
    let t = r.command_sent(Ok(()), 4608).unwrap();
    assert_eq!(t.endpoint(), 0x86);
    assert_eq!(t.num_packets(), 2);
    assert_eq!(t.packet_len(), 1536);
    assert_eq!(t.timeout_ms(), 0);
    assert_eq!(t.state(), TransferState::Idle);
    assert!(r.is_running());
}

#[test]
fn failed_command_rolls_the_start_back() {
    let mut r = Receiver::new(new_queue());
    assert!(r.start().is_ok());
    assert_eq!(
        r.command_sent(Err(TransferError::Timeout), 4608),
        Err(StartError::Command(TransferError::Timeout))
    );
    assert!(!r.is_running());
    assert!(r.start().is_ok());
}

#[test]
fn short_buffer_rolls_the_start_back() {
    let mut r = Receiver::new(new_queue());
    assert!(r.start().is_ok());
    assert_eq!(
        r.command_sent(Ok(()), 4607),
        Err(StartError::Submit(TransferError::InvalidParam))
    );
    assert!(!r.is_running());
}

#[test]
fn failed_submission_rolls_the_start_back() {
    let mut r = Receiver::new(new_queue());
    assert!(r.start().is_ok());
    let mut t = r.command_sent(Ok(()), 8192).unwrap();
    let submitted = t.submitted(-11);
    assert_eq!(r.transfer_submitted(submitted), Err(StartError::Submit(TransferError::NoMem)));
    assert!(!r.is_running());
    assert!(!r.queue().is_closed());
    assert_eq!(t.state(), TransferState::Ended);
}

#[test]
fn successful_submission_leaves_the_capture_running() {
    let mut r = Receiver::new(new_queue());
    assert!(r.start().is_ok());
    let mut t = r.command_sent(Ok(()), 4608).unwrap();
    let submitted = t.submitted(0);
    assert_eq!(r.transfer_submitted(submitted), Ok(()));
    assert!(r.is_running());
}

#[test]
fn stop_closes_the_queue_and_asks_for_the_end_command() {
    let mut r = running_receiver();
    assert_eq!(
        r.stop(),
        Some(Command { endpoint: 0x02, data: [0x5a, 0xa5, 0x00, 0x02, 0x41, 0x45], timeout_secs: 1 })
    );
    assert!(!r.is_running());
    assert!(r.queue().is_closed());
    assert!(!r.queue().would_block());
    assert_eq!(r.queue_mut().take_wake(), Wake::All);
}

#[test]
fn stop_is_idempotent() {
    let mut r = running_receiver();
    assert!(r.stop().is_some());
    let _ = r.queue_mut().take_wake();
    assert_eq!(r.stop(), None);
    assert_eq!(r.stop(), None);
    assert!(!r.is_running());
    assert!(r.queue().is_closed());
    assert_eq!(r.queue_mut().take_wake(), Wake::Nobody);
}

#[test]
fn stop_of_an_idle_receiver_does_nothing() {
    let mut r = Receiver::new(new_queue());
    assert_eq!(r.stop(), None);
    assert!(!r.is_running());
    assert!(!r.queue().is_closed());
}

#[test]
fn stop_keeps_the_queued_samples() {
    let mut r = running_receiver();
    assert!(r.callback(Ok(&record(0x100, 2))));
    assert!(r.stop().is_some());
    assert_eq!(drain(&mut r), vec![IqSample { i: 0x100, q: 2 }]);
}

#[test]
fn callback_after_stop_declines_to_go_on() {
    let mut r = running_receiver();
    assert!(r.stop().is_some());
    assert!(!r.callback(Ok(&record(0x100, 2))));
    assert!(!r.callback(Ok(&[])));
    assert!(!r.is_running());
}

#[test]
fn sink_record_is_big_endian_i_then_q() {
    assert_eq!(
        sink_record(0x3f80_0000, 0xbf00_0000),
        [0x3f, 0x80, 0x00, 0x00, 0xbf, 0x00, 0x00, 0x00]
    );
    assert_eq!(
        sink_record(0x0102_0304, 0x0a0b_0c0d),
        [0x01, 0x02, 0x03, 0x04, 0x0a, 0x0b, 0x0c, 0x0d]
    );
}

#[test]
fn sink_record_holds_the_floats_of_the_sample() {
    let sample = read_packet(&[0x00, 0x00, 0x00, 0x40, 0x00, 0x00, 0x00, 0x20]);
    let (i, q) = (normalized(sample.i), normalized(sample.q));
    let record = sink_record(i.to_bits(), q.to_bits());
    let mut expected = [0u8; 8];
    BigEndian::write_f32(&mut expected[0..4], i);
    BigEndian::write_f32(&mut expected[4..8], q);
    assert_eq!(record, expected);
    assert_eq!(BigEndian::read_f32(&record[0..4]), 0.5);
    assert_eq!(BigEndian::read_f32(&record[4..8]), 0.25);
}

#[test]
fn new_queue_is_empty_and_open() {
    let mut q = new_queue();
    assert!(q.is_empty());
    assert!(!q.is_closed());
    assert_eq!(q.take_wake(), Wake::Nobody);
    assert!(ar2300::new_queue().is_empty());
}

#[test]
fn write_hands_out_samples_then_waits() {
    let mut q = new_queue();
    assert_eq!(ar2300::iq::write(&mut q), WriterStep::Wait);
    q.enqueue(IqSample { i: 1, q: 2 });
    q.enqueue(IqSample { i: 3, q: 4 });
    assert_eq!(ar2300::iq::write(&mut q), WriterStep::Sample(IqSample { i: 1, q: 2 }));
    assert_eq!(ar2300::iq::write(&mut q), WriterStep::Sample(IqSample { i: 3, q: 4 }));
    assert_eq!(ar2300::iq::write(&mut q), WriterStep::Wait);
}

#[test]
fn write_finishes_when_a_closed_queue_is_empty() {
    let mut q = new_queue();
    q.enqueue(IqSample { i: 1, q: 2 });
    q.close();
    assert_eq!(ar2300::iq::write(&mut q), WriterStep::Sample(IqSample { i: 1, q: 2 }));
    assert_eq!(ar2300::iq::write(&mut q), WriterStep::Finished);
    assert_eq!(ar2300::iq::write(&mut q), WriterStep::Finished);
}

#[test]
fn flush_drains_the_queue_in_order() {
    let mut q = new_queue();
    assert_eq!(flush(&mut q), vec![]);
    for n in 0..10u32 {
        q.enqueue(IqSample { i: n, q: n + 100 });
    }
    q.close();
    let drained = flush(&mut q);
    assert_eq!(drained.len(), 10);
    for (n, sample) in drained.iter().enumerate() {
        assert_eq!(*sample, IqSample { i: n as u32, q: n as u32 + 100 });
    }
    assert!(q.is_empty());
    assert!(q.is_closed());
}
