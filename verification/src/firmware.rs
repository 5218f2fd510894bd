//! The firmware image of the board: a text of records in hexadecimal, one to
//! a line, that says which bytes go to which address of the device's memory.
//!
//! A record is a line that begins with a colon and has at least eleven
//! bytes:
//!
//! ```text
//! :CCAAAATTDD..DDSS
//! ```
//!
//! `CC` is the number of data bytes, `AAAA` the address, `TT` the type of
//! the record, `DD..DD` the data and `SS` a checksum, which is not looked at.
//! Type 00 is data, type 01 ends the image, every other type is passed over.
//! Every other line is passed over too.

use vstd::prelude::*;
use vstd::slice::slice_subrange;

verus! {

/// The address of the register that holds the processor of the board in
/// reset.
pub const RESET_ADDRESS: u16 = 0xe600;

/// What is written to the reset register to stop the processor.
pub const RESET_COMMAND: [u8; 1] = [1];

/// What is written to the reset register to let the processor run.
pub const RUN_COMMAND: [u8; 1] = [0];

/// The request type of the control transfer that writes to the memory of the
/// board: a vendor request, host to device.
pub const RAM_REQUEST_TYPE: u8 = 0x40;

/// The request of the control transfer that writes to the memory of the
/// board.
pub const RAM_REQUEST: u8 = 0xa0;

/// The seconds a write to the memory of the board may take.
pub const RAM_TIMEOUT_SECS: u64 = 5;

/// The shortest line that is looked at as a record.
pub const MIN_RECORD_LEN: usize = 11;

/// One write to the memory of the board.
#[derive(Debug, Clone, PartialEq, Eq)]
pub struct RamWrite {
    /// Where the bytes go.
    pub address: u16,
    /// The bytes.
    pub data: Vec<u8>,
}

/// The field of a record that could not be read as a number.
#[derive(Debug, Copy, Clone, PartialEq, Eq, Structural)]
pub enum HexError {
    /// The number of data bytes.
    Count,
    /// The address.
    Address,
    /// The type of the record.
    RecordType,
}

/// What an image comes to: the writes of its data records, in their order,
/// up to the record that ends the image or to the first record that could
/// not be read, and that record's fault, if there was one.
#[derive(Debug, Clone, PartialEq, Eq)]
pub struct Firmware {
    /// The writes, in the order of the records.
    pub writes: Vec<RamWrite>,
    /// Why reading stopped before the end of the image, if it did.
    pub error: Option<HexError>,
}

/// What one line of an image says.
pub enum Line {
    /// Nothing: no record, a record of a type that is passed over, or a data
    /// record whose data is not as long as it says.
    Skip,
    /// These bytes go to this address.
    Data(int, Seq<u8>),
    /// The image ends here.
    End,
    /// A record that cannot be read.
    Fault(HexError),
}

/// What an image says from some line on.
pub struct Records {
    /// The writes: address and bytes.
    pub writes: Seq<(int, Seq<u8>)>,
    /// Why reading stopped before the end of the image, if it did.
    pub error: Option<HexError>,
}

/// The value of a hexadecimal digit, in either case.
pub open spec fn digit_value(c: u8) -> Option<int> {
    if 0x30 <= c <= 0x39 {
        Some(c - 0x30)
    } else if 0x61 <= c <= 0x66 {
        Some(c - 0x61 + 10)
    } else if 0x41 <= c <= 0x46 {
        Some(c - 0x41 + 10)
    } else {
        None
    }
}

/// The number that a run of hexadecimal digits stands for, the highest digit
/// first, or `None` where one of the bytes is no digit. No digits stand for
/// 0.
pub open spec fn digits_value(digits: Seq<u8>) -> Option<int>
    decreases digits.len(),
{
    if digits.len() == 0 {
        Some(0)
    } else {
        match (digits_value(digits.drop_last()), digit_value(digits.last())) {
            (Some(high), Some(low)) => Some(high * 16 + low),
            _ => None,
        }
    }
}

/// The number that a field stands for: one or more hexadecimal digits, with
/// or without a plus sign before them. Anything else is `None`.
pub open spec fn field_value(field: Seq<u8>) -> Option<int> {
    if field.len() == 0 {
        None
    } else if field[0] == 0x2b {
        if field.len() == 1 {
            None
        } else {
            digits_value(field.skip(1))
        }
    } else {
        digits_value(field)
    }
}

/// The byte that a pair of hexadecimal digits stands for; 0 where the pair
/// does not read as a number.
pub open spec fn pair_value(pair: Seq<u8>) -> u8 {
    match field_value(pair) {
        Some(value) => value as u8,
        None => 0,
    }
}

/// The bytes that a run of hexadecimal digits stands for, two digits to a
/// byte. A single digit at the end makes a byte of its own.
pub open spec fn hex_bytes(data: Seq<u8>) -> Seq<u8> {
    Seq::new(
        ((data.len() + 1) / 2) as nat,
        |k: int|
            pair_value(
                data.subrange(
                    2 * k,
                    if 2 * k + 2 <= data.len() {
                        2 * k + 2
                    } else {
                        data.len() as int
                    },
                ),
            ),
    )
}

/// What a line says.
pub open spec fn line_record(line: Seq<u8>) -> Line {
    if line.len() < MIN_RECORD_LEN || line[0] != 0x3a {
        Line::Skip
    } else {
        match field_value(line.subrange(1, 3)) {
            None => Line::Fault(HexError::Count),
            Some(count) => match field_value(line.subrange(3, 7)) {
                None => Line::Fault(HexError::Address),
                Some(address) => match field_value(line.subrange(7, 9)) {
                    None => Line::Fault(HexError::RecordType),
                    Some(record_type) => if record_type == 0 {
                        let data = hex_bytes(line.subrange(9, line.len() - 2));
                        if data.len() == count {
                            Line::Data(address, data)
                        } else {
                            Line::Skip
                        }
                    } else if record_type == 1 {
                        Line::End
                    } else {
                        Line::Skip
                    },
                },
            },
        }
    }
}

/// The position of the first line feed at or after `start`, or the length of
/// the text where there is none.
pub open spec fn line_end(text: Seq<u8>, start: int) -> int
    decreases text.len() - start,
{
    if start >= text.len() {
        text.len() as int
    } else if text[start] == 0x0a {
        start
    } else {
        line_end(text, start + 1)
    }
}

/// The line that starts at `start`: the bytes up to the next line feed,
/// without a carriage return that stands before that line feed. A line that
/// the end of the text ends keeps its carriage return.
pub open spec fn line_at(text: Seq<u8>, start: int) -> Seq<u8> {
    let end = line_end(text, start);
    if end < text.len() && start < end && text[end - 1] == 0x0d {
        text.subrange(start, end - 1)
    } else {
        text.subrange(start, end)
    }
}

/// The line that starts at `start` ends at or after `start`, within the
/// text, at a line feed or at the end of the text, and holds no line feed.
pub proof fn lemma_line_end(text: Seq<u8>, start: int)
    requires
        0 <= start <= text.len(),
    ensures
        start <= line_end(text, start) <= text.len(),
        line_end(text, start) < text.len() ==> text[line_end(text, start)] == 0x0a,
        forall|k: int| start <= k < line_end(text, start) ==> text[k] != 0x0a,
    decreases text.len() - start,
{
    if start < text.len() && text[start] != 0x0a {
        lemma_line_end(text, start + 1);
    }
}

/// What the lines of an image say, from the line that starts at `start` on:
/// the data records up to the end of the text, to the record that ends the
/// image, or to the first record that cannot be read.
pub open spec fn records_from(text: Seq<u8>, start: int) -> Records
    decreases text.len() + 1 - start,
{
    if start < 0 || start >= text.len() {
        Records { writes: Seq::empty(), error: None }
    } else {
        proof {
            lemma_line_end(text, start);
        }
        let next = line_end(text, start) + 1;
        match line_record(line_at(text, start)) {
            Line::Skip => records_from(text, next),
            Line::Data(address, data) => {
                let rest = records_from(text, next);
                Records { writes: seq![(address, data)] + rest.writes, error: rest.error }
            },
            Line::End => Records { writes: Seq::empty(), error: None },
            Line::Fault(error) => Records { writes: Seq::empty(), error: Some(error) },
        }
    }
}

/// What an image says.
pub open spec fn image_records(text: Seq<u8>) -> Records {
    records_from(text, 0)
}

/// The writes as addresses and bytes.
pub open spec fn writes_view(writes: Seq<RamWrite>) -> Seq<(int, Seq<u8>)> {
    Seq::new(writes.len(), |k: int| (writes[k].address as int, writes[k].data@))
}

/// What one line of an image says, with the write of a data record ready.
#[derive(Debug, Clone, PartialEq, Eq)]
pub enum Record {
    /// Nothing.
    Skip,
    /// A write to the memory of the board.
    Data(RamWrite),
    /// The image ends here.
    End,
    /// A record that cannot be read.
    Fault(HexError),
}

impl View for Record {
    type V = Line;

    open spec fn view(&self) -> Line {
        match self {
            Record::Skip => Line::Skip,
            Record::Data(write) => Line::Data(write.address as int, write.data@),
            Record::End => Line::End,
            Record::Fault(error) => Line::Fault(*error),
        }
    }
}

/// The least number that `digits` hexadecimal digits cannot stand for, for up
/// to four digits.
pub open spec fn digits_bound(digits: int) -> int {
    if digits <= 0 {
        1
    } else if digits == 1 {
        0x10
    } else if digits == 2 {
        0x100
    } else if digits == 3 {
        0x1000
    } else {
        0x1_0000
    }
}

/// The value of a hexadecimal digit, in either case, or `None` for a byte
/// that is no digit.
pub fn hex_digit(c: u8) -> (value: Option<u8>)
    ensures
        match value {
            Some(v) => digit_value(c) == Some(v as int) && v < 16,
            None => digit_value(c) is None,
        },
{
    if 0x30 <= c && c <= 0x39 {
        Some(c - 0x30)
    } else if 0x61 <= c && c <= 0x66 {
        Some(c - 0x61 + 10)
    } else if 0x41 <= c && c <= 0x46 {
        Some(c - 0x41 + 10)
    } else {
        None
    }
}

/// Reads a field of at most four bytes as a number: hexadecimal digits, with
/// or without a plus sign before them.
fn parse_field(field: &[u8]) -> (value: Option<u16>)
    requires
        field@.len() <= 4,
    ensures
        match value {
            Some(v) => field_value(field@) == Some(v as int),
            None => field_value(field@) is None,
        },
{
    let len = field.len();
    if len == 0 {
        return None;
    }
    let first: usize = if field[0] == 0x2b {
        1
    } else {
        0
    };
    if first == len {
        return None;
    }
    let ghost digits = field@.subrange(first as int, len as int);
    proof {
        if first == 0 {
            assert(digits == field@);
        } else {
            assert(digits == field@.skip(1));
        }
        assert(field_value(field@) == digits_value(digits));
    }
    let mut value: u16 = 0;
    let mut at: usize = first;
    while at < len
        invariant
            len == field@.len(),
            len <= 4,
            first <= at <= len,
            digits == field@.subrange(first as int, len as int),
            field_value(field@) == digits_value(digits),
            digits_value(field@.subrange(first as int, at as int)) == Some(value as int),
            value < digits_bound(at - first),
            at - first <= 3 || at == len,
        decreases len - at,
    {
        let ghost read = field@.subrange(first as int, at as int + 1);
        proof {
            assert(read.drop_last() == field@.subrange(first as int, at as int));
            assert(read.last() == field@[at as int]);
        }
        match hex_digit(field[at]) {
            Some(digit) => {
                value = value * 16 + digit as u16;
            },
            None => {
                proof {
                    lemma_digits_fault(digits, at - first);
                }
                return None;
            },
        }
        at += 1;
    }
    proof {
        assert(field@.subrange(first as int, at as int) == digits);
    }
    Some(value)
}

/// A run of digits with a byte in it that is no digit stands for no number.
pub proof fn lemma_digits_fault(digits: Seq<u8>, at: int)
    requires
        0 <= at < digits.len(),
        digit_value(digits[at]) is None,
    ensures
        digits_value(digits) is None,
    decreases digits.len(),
{
    if at < digits.len() - 1 {
        lemma_digits_fault(digits.drop_last(), at);
    }
}

/// Reads a run of hexadecimal digits as bytes, two digits to a byte. A pair
/// that does not read as a number gives the byte 0. A single digit at the
/// end gives a byte of its own.
pub fn parse_hex(data: &[u8]) -> (bytes: Vec<u8>)
    ensures
        bytes@ == hex_bytes(data@),
{
    let len = data.len();
    let mut bytes: Vec<u8> = Vec::new();
    let mut at: usize = 0;
    while at < len
        invariant
            len == data@.len(),
            at <= len,
            at % 2 == 0 || at == len,
            bytes@.len() == (at + 1) / 2,
            forall|k: int| 0 <= k < bytes@.len() ==> bytes@[k] == hex_bytes(data@)[k],
        decreases len - at,
    {
        let end = if len - at >= 2 {
            at + 2
        } else {
            len
        };
        let byte = match parse_field(slice_subrange(data, at, end)) {
            Some(value) => {
                proof {
                    lemma_field_bound(data@.subrange(at as int, end as int));
                }
                value as u8
            },
            None => 0,
        };
        proof {
            let k = at as int / 2;
            assert(2 * k == at);
            assert(byte == pair_value(data@.subrange(at as int, end as int)));
            assert(k < (len + 1) / 2);
            assert(hex_bytes(data@)[k] == byte);
        }
        bytes.push(byte);
        at = end;
    }
    proof {
        assert(bytes@.len() == (len + 1) / 2);
        assert(bytes@ =~= hex_bytes(data@));
    }
    bytes
}

/// A run of digits stands for a number below the bound of its length.
pub proof fn lemma_digits_bound(digits: Seq<u8>)
    requires
        digits.len() <= 4,
    ensures
        digits_value(digits) matches Some(value) ==> 0 <= value < digits_bound(digits.len() as int),
    decreases digits.len(),
{
    if digits.len() > 0 {
        lemma_digits_bound(digits.drop_last());
    }
}

/// A field of at most four bytes stands for a number below the bound of its
/// length.
pub proof fn lemma_field_bound(field: Seq<u8>)
    requires
        field.len() <= 4,
    ensures
        field_value(field) matches Some(value) ==> 0 <= value < digits_bound(field.len() as int),
{
    if field.len() > 0 {
        if field[0] == 0x2b {
            if field.len() > 1 {
                lemma_digits_bound(field.skip(1));
            }
        } else {
            lemma_digits_bound(field);
        }
    }
}

/// Reads one line of an image.
pub fn parse_record(line: &[u8]) -> (record: Record)
    ensures
        record@ == line_record(line@),
{
    let len = line.len();
    if len < MIN_RECORD_LEN || line[0] != 0x3a {
        return Record::Skip;
    }
    let count = match parse_field(slice_subrange(line, 1, 3)) {
        Some(count) => count,
        None => {
            return Record::Fault(HexError::Count);
        },
    };
    let address = match parse_field(slice_subrange(line, 3, 7)) {
        Some(address) => address,
        None => {
            return Record::Fault(HexError::Address);
        },
    };
    let record_type = match parse_field(slice_subrange(line, 7, 9)) {
        Some(record_type) => record_type,
        None => {
            return Record::Fault(HexError::RecordType);
        },
    };
    if record_type == 0 {
        let data = parse_hex(slice_subrange(line, 9, len - 2));
        if data.len() == count as usize {
            Record::Data(RamWrite { address, data })
        } else {
            Record::Skip
        }
    } else if record_type == 1 {
        Record::End
    } else {
        Record::Skip
    }
}

/// Reads an image: the writes of its data records, in their order, up to the
/// end of the text, to the record that ends the image, or to the first
/// record that cannot be read, whose fault is then reported with the writes
/// that came before it.
pub fn write_firmware(firmware: &[u8]) -> (image: Firmware)
    ensures
        writes_view(image.writes@) == image_records(firmware@).writes,
        image.error == image_records(firmware@).error,
{
    let len = firmware.len();
    let mut writes: Vec<RamWrite> = Vec::new();
    let mut error: Option<HexError> = None;
    let mut start: usize = 0;
    let mut open = true;
    while open && start < len
        invariant
            len == firmware@.len(),
            start <= len,
            open ==> error is None,
            image_records(firmware@).writes == writes_view(writes@) + if open {
                records_from(firmware@, start as int).writes
            } else {
                Seq::empty()
            },
            image_records(firmware@).error == if open {
                records_from(firmware@, start as int).error
            } else {
                error
            },
        decreases len - start, open as int,
    {
        let mut end = start;
        while end < len && firmware[end] != 0x0a
            invariant
                len == firmware@.len(),
                start <= end <= len,
                line_end(firmware@, end as int) == line_end(firmware@, start as int),
            decreases len - end,
        {
            end += 1;
        }
        let stop = if end < len && start < end && firmware[end - 1] == 0x0d {
            end - 1
        } else {
            end
        };
        let ghost before = writes_view(writes@);
        let ghost rest = records_from(firmware@, end as int + 1);
        match parse_record(slice_subrange(firmware, start, stop)) {
            Record::Skip => {},
            Record::Data(write) => {
                let ghost entry = (write.address as int, write.data@);
                writes.push(write);
                proof {
                    assert(writes_view(writes@) == before.push(entry));
                    assert(before + (seq![entry] + rest.writes) == before.push(entry)
                        + rest.writes);
                }
            },
            Record::End => {
                open = false;
            },
            Record::Fault(fault) => {
                error = Some(fault);
                open = false;
            },
        }
        proof {
            if !open {
                assert(before + Seq::<(int, Seq<u8>)>::empty() == before);
            }
        }
        if end < len {
            start = end + 1;
        } else {
            start = len;
        }
    }
    proof {
        if open {
            assert(writes_view(writes@) + Seq::<(int, Seq<u8>)>::empty() == writes_view(writes@));
        }
    }
    Firmware { writes, error }
}

/// The write that holds the processor of the board in reset.
pub fn reset() -> (write: RamWrite)
    ensures
        write.address == RESET_ADDRESS,
        write.data@ == seq![1u8],
{
    let mut data: Vec<u8> = Vec::new();
    data.push(RESET_COMMAND[0]);
    RamWrite { address: RESET_ADDRESS, data }
}

/// The write that lets the processor of the board run.
pub fn run() -> (write: RamWrite)
    ensures
        write.address == RESET_ADDRESS,
        write.data@ == seq![0u8],
{
    let mut data: Vec<u8> = Vec::new();
    data.push(RUN_COMMAND[0]);
    RamWrite { address: RESET_ADDRESS, data }
}

/// What the board names as its maker once its firmware runs: `AOR, LTD`.
pub const LOADED_MARK: [u8; 8] = [0x41, 0x4f, 0x52, 0x2c, 0x20, 0x4c, 0x54, 0x44];

/// Whether `mark` stands in `text` at position `at`.
pub open spec fn occurs_at(text: Seq<u8>, mark: Seq<u8>, at: int) -> bool {
    0 <= at && at + mark.len() <= text.len() && text.subrange(at, at + mark.len()) == mark
}

/// Whether `mark` stands somewhere in `text`.
pub open spec fn occurs(text: Seq<u8>, mark: Seq<u8>) -> bool {
    exists|at: int| occurs_at(text, mark, at)
}

/// Whether `mark` stands somewhere in `text`. An empty mark stands in every
/// text.
pub fn contains(text: &[u8], mark: &[u8]) -> (found: bool)
    ensures
        found == occurs(text@, mark@),
{
    let len = text.len();
    let size = mark.len();
    if size > len {
        return false;
    }
    let mut at: usize = 0;
    while at <= len - size
        invariant
            len == text@.len(),
            size == mark@.len(),
            size <= len,
            at <= len - size + 1,
            forall|k: int| 0 <= k < at ==> !occurs_at(text@, mark@, k),
        decreases len - size + 1 - at,
    {
        let mut same: usize = 0;
        while same < size && text[at + same] == mark[same]
            invariant
                len == text@.len(),
                size == mark@.len(),
                at + size <= len,
                same <= size,
                forall|j: int| 0 <= j < same ==> text@[at + j] == mark@[j],
            decreases size - same,
        {
            same += 1;
        }
        if same == size {
            proof {
                assert(text@.subrange(at as int, at + size) =~= mark@);
                assert(occurs_at(text@, mark@, at as int));
            }
            return true;
        }
        proof {
            assert(text@.subrange(at as int, at + size)[same as int] == text@[at + same]);
        }
        at += 1;
    }
    false
}

/// Whether the firmware has to be loaded before the board can capture: it
/// was asked for, and the description of the device does not name the maker
/// that a board with running firmware names.
pub fn needs_firmware(load_firmware: bool, device_info: &[u8]) -> (needed: bool)
    ensures
        needed == (load_firmware && !occurs(device_info@, LOADED_MARK@)),
{
    load_firmware && !contains(device_info, &LOADED_MARK)
}

} // verus!
