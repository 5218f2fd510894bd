//! The USB side of a capture: which device is the IQ board, what the native
//! library's codes mean, and the chain of isochronous transfers that carries
//! the sample stream.
//!
//! Nothing here touches a device. A transfer is a small state machine that is
//! told what the native library reported and answers what has to be done
//! next; the caller owns the native transfer and its buffer.

use vstd::prelude::*;

verus! {

/// Vendor identifier of the IQ board.
pub const IQ_VENDOR_ID: u16 = 0x08d0;

/// Product identifier of the IQ board.
pub const IQ_PRODUCT_ID: u16 = 0xa001;

/// The bit of an endpoint address that gives the direction.
pub const ENDPOINT_DIR_MASK: u8 = 0x80;

/// The direction bit of a device-to-host endpoint.
pub const ENDPOINT_IN: u8 = 0x80;

/// Why a USB operation failed.
#[derive(Debug, Copy, Clone, PartialEq, Eq, Structural)]
pub enum TransferError {
    /// Input or output error.
    Io,
    /// Invalid parameter.
    InvalidParam,
    /// Access denied.
    Access,
    /// No such device; it may have been disconnected.
    NoDevice,
    /// Entity not found.
    NotFound,
    /// Resource busy.
    Busy,
    /// The operation timed out.
    Timeout,
    /// The device sent more than the buffer holds.
    Overflow,
    /// The endpoint stalled.
    Pipe,
    /// The operation was interrupted or cancelled.
    Interrupted,
    /// Insufficient memory.
    NoMem,
    /// Not supported on this platform.
    NotSupported,
    /// The device returned a malformed descriptor.
    BadDescriptor,
    /// Any other failure.
    Other,
}

/// The error that a negative return code of the native library stands for.
/// A code that the library does not define stands for [`TransferError::Other`].
pub open spec fn error_of_code(code: int) -> TransferError {
    if code == -1 {
        TransferError::Io
    } else if code == -2 {
        TransferError::InvalidParam
    } else if code == -3 {
        TransferError::Access
    } else if code == -4 {
        TransferError::NoDevice
    } else if code == -5 {
        TransferError::NotFound
    } else if code == -6 {
        TransferError::Busy
    } else if code == -7 {
        TransferError::Timeout
    } else if code == -8 {
        TransferError::Overflow
    } else if code == -9 {
        TransferError::Pipe
    } else if code == -10 {
        TransferError::Interrupted
    } else if code == -11 {
        TransferError::NoMem
    } else if code == -12 {
        TransferError::NotSupported
    } else {
        TransferError::Other
    }
}

/// How a completed transfer ended, by the status the native library stores
/// in it: `None` for a transfer that completed, else the error. A status that
/// the library does not define stands for [`TransferError::Other`].
pub open spec fn error_of_status(status: int) -> Option<TransferError> {
    if status == 0 {
        None
    } else if status == 1 {
        Some(TransferError::Io)
    } else if status == 2 {
        Some(TransferError::Timeout)
    } else if status == 3 {
        Some(TransferError::Interrupted)
    } else if status == 4 {
        Some(TransferError::Pipe)
    } else if status == 5 {
        Some(TransferError::NoDevice)
    } else if status == 6 {
        Some(TransferError::Overflow)
    } else {
        Some(TransferError::Other)
    }
}

/// Maps a return code of the native library to the error it stands for.
pub fn from_libusb(err: i32) -> (error: TransferError)
    ensures
        error == error_of_code(err as int),
{
    match err {
        -1 => TransferError::Io,
        -2 => TransferError::InvalidParam,
        -3 => TransferError::Access,
        -4 => TransferError::NoDevice,
        -5 => TransferError::NotFound,
        -6 => TransferError::Busy,
        -7 => TransferError::Timeout,
        -8 => TransferError::Overflow,
        -9 => TransferError::Pipe,
        -10 => TransferError::Interrupted,
        -11 => TransferError::NoMem,
        -12 => TransferError::NotSupported,
        _ => TransferError::Other,
    }
}

/// What a submission of a transfer to the native library came to: success for
/// the code 0, else the error the code stands for.
pub fn submit_outcome(code: i32) -> (outcome: Result<(), TransferError>)
    ensures
        outcome == if code == 0 {
            Ok::<(), TransferError>(())
        } else {
            Err::<(), TransferError>(error_of_code(code as int))
        },
{
    if code == 0 {
        Ok(())
    } else {
        Err(from_libusb(code))
    }
}

/// What is handed to the callback for a transfer that completed with
/// `status`: the bytes that were filled, or the error the status stands for.
pub fn completion_result(status: i32, filled: &[u8]) -> (result: Result<&[u8], TransferError>)
    ensures
        match error_of_status(status as int) {
            None => result matches Ok(bytes) && bytes@ == filled@,
            Some(error) => result == Err::<&[u8], TransferError>(error),
        },
{
    match status {
        0 => Ok(filled),
        1 => Err(TransferError::Io),
        2 => Err(TransferError::Timeout),
        3 => Err(TransferError::Interrupted),
        4 => Err(TransferError::Pipe),
        5 => Err(TransferError::NoDevice),
        6 => Err(TransferError::Overflow),
        _ => Err(TransferError::Other),
    }
}

/// Whether a device with these identifiers is the IQ board. `None` stands for
/// a device whose descriptor could not be read; it is never the board.
pub open spec fn iq_device_ids(ids: Option<(u16, u16)>) -> bool {
    ids == Some((IQ_VENDOR_ID, IQ_PRODUCT_ID))
}

/// Whether a device with these vendor and product identifiers is the IQ
/// board.
pub fn is_iq_device(ids: Option<(u16, u16)>) -> (found: bool)
    ensures
        found == iq_device_ids(ids),
{
    match ids {
        Some((vendor_id, product_id)) => vendor_id == IQ_VENDOR_ID && product_id == IQ_PRODUCT_ID,
        None => false,
    }
}

/// The position of the first IQ board among the devices, which are given by
/// their identifiers in the order of enumeration, or `None` where there is
/// none.
pub fn find_iq_device(devices: &[Option<(u16, u16)>]) -> (found: Option<usize>)
    ensures
        match found {
            Some(index) => {
                &&& index < devices@.len()
                &&& iq_device_ids(devices@[index as int])
                &&& forall|k: int| 0 <= k < index ==> !iq_device_ids(#[trigger] devices@[k])
            },
            None => forall|k: int| 0 <= k < devices@.len() ==> !iq_device_ids(#[trigger] devices@[k]),
        },
{
    let mut index: usize = 0;
    while index < devices.len()
        invariant
            index <= devices@.len(),
            forall|k: int| 0 <= k < index ==> !iq_device_ids(#[trigger] devices@[k]),
        decreases devices@.len() - index,
    {
        if is_iq_device(devices[index]) {
            return Some(index);
        }
        index += 1;
    }
    None
}

/// Why the device could not be set up for capture.
#[derive(Debug, Copy, Clone, PartialEq, Eq, Structural)]
pub enum SetupError {
    /// The kernel driver could not be set to detach.
    KernelDriver(TransferError),
    /// The interface could not be claimed.
    ClaimInterface(TransferError),
}

/// Judges the attempt to have the kernel driver detached automatically. A
/// platform that has no kernel drivers to detach counts as success; every
/// other error is fatal to the setup.
pub fn check_for_kernel_driver(attempt: Result<(), TransferError>) -> (checked: Result<
    (),
    SetupError,
>)
    ensures
        checked == match attempt {
            Ok(()) => Ok::<(), SetupError>(()),
            Err(TransferError::NotSupported) => Ok::<(), SetupError>(()),
            Err(error) => Err::<(), SetupError>(SetupError::KernelDriver(error)),
        },
{
    match attempt {
        Ok(()) => Ok(()),
        Err(TransferError::NotSupported) => Ok(()),
        Err(error) => Err(SetupError::KernelDriver(error)),
    }
}

/// Judges the attempt to claim the interface: any error is fatal to the
/// setup.
pub fn claim_interface(attempt: Result<(), TransferError>) -> (claimed: Result<(), SetupError>)
    ensures
        claimed == match attempt {
            Ok(()) => Ok::<(), SetupError>(()),
            Err(error) => Err::<(), SetupError>(SetupError::ClaimInterface(error)),
        },
{
    match attempt {
        Ok(()) => Ok(()),
        Err(error) => Err(SetupError::ClaimInterface(error)),
    }
}

/// What a callback is handed, with the bytes in place of the buffer.
pub open spec fn result_view(r: Result<&[u8], TransferError>) -> Result<Seq<u8>, TransferError> {
    match r {
        Ok(buffer) => Ok(buffer@),
        Err(error) => Err(error),
    }
}

/// What is handed to the callback for a transfer that completed with
/// `status` and filled the buffer with `filled`.
pub open spec fn completion_view(status: int, filled: Seq<u8>) -> Result<Seq<u8>, TransferError> {
    match error_of_status(status) {
        None => Ok(filled),
        Some(error) => Err(error),
    }
}

/// The receiver of a stream of transfers.
pub trait TransferCallback: Sized {
    /// Whether the receiver, handed `r`, may become `after` and give the
    /// answer `resubmit`. A receiver that says nothing of itself may do
    /// anything.
    open spec fn answers(
        &self,
        r: Result<Seq<u8>, TransferError>,
        after: &Self,
        resubmit: bool,
    ) -> bool {
        true
    }

    /// Takes the outcome of one transfer: the bytes that arrived, or the
    /// error that ended it. The answer says whether the same transfer is to
    /// be submitted again.
    fn callback(&mut self, r: Result<&[u8], TransferError>) -> (resubmit: bool)
        ensures
            old(self).answers(result_view(r), final(self), resubmit),
    ;
}

/// Where a chain of transfers stands.
#[derive(Debug, Copy, Clone, PartialEq, Eq, Structural)]
pub enum TransferState {
    /// Accepted, not yet handed to the native library.
    Idle,
    /// In flight: the native library owns the buffer.
    Submitted,
    /// Completed, and the callback asked for more: to be submitted again.
    Completed,
    /// Over: the callback will not be invoked again.
    Ended,
}

/// A chain of isochronous reads on one endpoint: one transfer that is
/// submitted again each time it completes, for as long as the callback asks
/// for more.
#[derive(Debug, Copy, Clone, PartialEq, Eq, Structural)]
pub struct IsoTransfer {
    endpoint: u8,
    num_packets: usize,
    packet_len: usize,
    timeout_ms: u32,
    state: TransferState,
}

/// Whether an endpoint address is that of a device-to-host endpoint.
pub open spec fn is_in_endpoint(endpoint: u8) -> bool {
    endpoint & ENDPOINT_DIR_MASK == ENDPOINT_IN
}

/// Whether a buffer of `buffer_len` bytes holds `num_packets` packets of
/// `packet_len` bytes and one packet more, the slack that takes up a stream
/// that is out of step with the packets.
pub open spec fn buffer_holds(buffer_len: usize, num_packets: usize, packet_len: usize) -> bool {
    buffer_len >= packet_len * (num_packets + 1)
}

impl IsoTransfer {
    /// The endpoint address.
    pub closed spec fn spec_endpoint(&self) -> u8 {
        self.endpoint
    }

    /// The number of packets in one transfer.
    pub closed spec fn spec_num_packets(&self) -> usize {
        self.num_packets
    }

    /// The length of each packet.
    pub closed spec fn spec_packet_len(&self) -> usize {
        self.packet_len
    }

    /// The timeout of one transfer in milliseconds; 0 for none.
    pub closed spec fn spec_timeout_ms(&self) -> u32 {
        self.timeout_ms
    }

    /// Where the chain stands.
    pub closed spec fn spec_state(&self) -> TransferState {
        self.state
    }

    /// The same chain in another state.
    pub open spec fn in_state(&self, other: &IsoTransfer, state: TransferState) -> bool {
        &&& self.spec_endpoint() == other.spec_endpoint()
        &&& self.spec_num_packets() == other.spec_num_packets()
        &&& self.spec_packet_len() == other.spec_packet_len()
        &&& self.spec_timeout_ms() == other.spec_timeout_ms()
        &&& self.spec_state() == state
    }

    /// The endpoint address.
    #[verifier::when_used_as_spec(spec_endpoint)]
    pub fn endpoint(&self) -> (endpoint: u8)
        ensures
            endpoint == self.spec_endpoint(),
    {
        self.endpoint
    }

    /// The number of packets in one transfer.
    #[verifier::when_used_as_spec(spec_num_packets)]
    pub fn num_packets(&self) -> (num_packets: usize)
        ensures
            num_packets == self.spec_num_packets(),
    {
        self.num_packets
    }

    /// The length of each packet.
    #[verifier::when_used_as_spec(spec_packet_len)]
    pub fn packet_len(&self) -> (packet_len: usize)
        ensures
            packet_len == self.spec_packet_len(),
    {
        self.packet_len
    }

    /// The timeout of one transfer in milliseconds; 0 for none.
    #[verifier::when_used_as_spec(spec_timeout_ms)]
    pub fn timeout_ms(&self) -> (timeout_ms: u32)
        ensures
            timeout_ms == self.spec_timeout_ms(),
    {
        self.timeout_ms
    }

    /// Where the chain stands.
    #[verifier::when_used_as_spec(spec_state)]
    pub fn state(&self) -> (state: TransferState)
        ensures
            state == self.spec_state(),
    {
        self.state
    }

    /// Records what the native library answered to the first submission.
    /// With the code 0 the transfer is in flight. With any other code the
    /// chain is over, and the error the code stands for is returned. On a
    /// chain that is not idle nothing changes, and the answer is
    /// [`TransferError::Busy`].
    pub fn submitted(&mut self, code: i32) -> (outcome: Result<(), TransferError>)
        ensures
            old(self).state() != TransferState::Idle ==> *final(self) == *old(self) && outcome
                == Err::<(), TransferError>(TransferError::Busy),
            old(self).state() == TransferState::Idle && code == 0 ==> final(self).in_state(
                old(self),
                TransferState::Submitted,
            ) && outcome == Ok::<(), TransferError>(()),
            old(self).state() == TransferState::Idle && code != 0 ==> final(self).in_state(
                old(self),
                TransferState::Ended,
            ) && outcome == Err::<(), TransferError>(error_of_code(code as int)),
    {
        match self.state {
            TransferState::Idle => {
                let outcome = submit_outcome(code);
                self.state = if code == 0 {
                    TransferState::Submitted
                } else {
                    TransferState::Ended
                };
                outcome
            },
            _ => Err(TransferError::Busy),
        }
    }

    /// Takes the completion of the transfer in flight: hands the callback the
    /// bytes that were filled, or the error that `status` stands for, and
    /// returns its answer. On `true` the transfer is to be submitted again, as
    /// it is; on `false` the chain is over. On a chain with no transfer in
    /// flight the callback is not invoked and the answer is `false`.
    pub fn complete<C: TransferCallback>(
        &mut self,
        status: i32,
        filled: &[u8],
        callback: &mut C,
    ) -> (resubmit: bool)
        ensures
            old(self).state() != TransferState::Submitted ==> !resubmit && *final(self) == *old(
                self,
            ) && *final(callback) == *old(callback),
            old(self).state() == TransferState::Submitted ==> final(self).in_state(
                old(self),
                if resubmit {
                    TransferState::Completed
                } else {
                    TransferState::Ended
                },
            ) && old(callback).answers(
                completion_view(status as int, filled@),
                final(callback),
                resubmit,
            ),
    {
        match self.state {
            TransferState::Submitted => {
                let resubmit = callback.callback(completion_result(status, filled));
                self.state = if resubmit {
                    TransferState::Completed
                } else {
                    TransferState::Ended
                };
                resubmit
            },
            _ => false,
        }
    }

    /// Records what the native library answered when the completed transfer
    /// was submitted again. With the code 0 the transfer is in flight again.
    /// With any other code the chain is over, and the callback is handed the
    /// error the code stands for, so that the end of the chain does not pass
    /// unseen; its answer is not asked for. On a chain that is not waiting to
    /// be submitted again nothing changes and the callback is not invoked.
    pub fn resubmitted<C: TransferCallback>(&mut self, code: i32, callback: &mut C)
        ensures
            old(self).state() != TransferState::Completed ==> *final(self) == *old(self)
                && *final(callback) == *old(callback),
            old(self).state() == TransferState::Completed && code == 0 ==> final(self).in_state(
                old(self),
                TransferState::Submitted,
            ) && *final(callback) == *old(callback),
            old(self).state() == TransferState::Completed && code != 0 ==> final(self).in_state(
                old(self),
                TransferState::Ended,
            ) && exists|answer: bool|
                old(callback).answers(
                    Err::<Seq<u8>, TransferError>(error_of_code(code as int)),
                    final(callback),
                    answer,
                ),
    {
        match self.state {
            TransferState::Completed => {
                match submit_outcome(code) {
                    Ok(()) => {
                        self.state = TransferState::Submitted;
                    },
                    Err(error) => {
                        self.state = TransferState::Ended;
                        let _ = callback.callback(Err(error));
                    },
                }
            },
            _ => {},
        }
    }
}

/// Accepts a chain of isochronous reads of `num_packets` packets of
/// `packet_len` bytes each from `endpoint` into a buffer of `buffer_len`
/// bytes, or refuses it with [`TransferError::InvalidParam`]: the endpoint
/// must be a device-to-host endpoint, and the buffer must hold the packets
/// and one packet more. What is accepted is idle until the native library has
/// taken it.
pub fn submit_iso(
    endpoint: u8,
    buffer_len: usize,
    num_packets: usize,
    packet_len: usize,
    timeout_ms: u32,
) -> (accepted: Result<IsoTransfer, TransferError>)
    ensures
        match accepted {
            Ok(transfer) => {
                &&& is_in_endpoint(endpoint)
                &&& buffer_holds(buffer_len, num_packets, packet_len)
                &&& transfer.endpoint() == endpoint
                &&& transfer.num_packets() == num_packets
                &&& transfer.packet_len() == packet_len
                &&& transfer.timeout_ms() == timeout_ms
                &&& transfer.state() == TransferState::Idle
            },
            Err(error) => {
                &&& error == TransferError::InvalidParam
                &&& !(is_in_endpoint(endpoint) && buffer_holds(buffer_len, num_packets, packet_len))
            },
        },
{
    if endpoint & ENDPOINT_DIR_MASK != ENDPOINT_IN {
        return Err(TransferError::InvalidParam);
    }
    let needed = match num_packets.checked_add(1) {
        Some(count) => packet_len.checked_mul(count),
        None => if packet_len == 0 {
            Some(0)
        } else {
            None
        },
    };
    let holds = match needed {
        Some(needed) => buffer_len >= needed,
        None => false,
    };
    if !holds {
        proof {
            if num_packets + 1 > usize::MAX {
                if packet_len > 0 {
                    assert(packet_len * (num_packets + 1) >= num_packets + 1) by (nonlinear_arith)
                        requires
                            packet_len >= 1,
                            num_packets + 1 >= 0,
                    ;
                }
            }
        }
        return Err(TransferError::InvalidParam);
    }
    proof {
        if num_packets + 1 > usize::MAX {
            assert(packet_len * (num_packets + 1) == 0) by (nonlinear_arith)
                requires
                    packet_len == 0,
            ;
        }
    }
    Ok(IsoTransfer { endpoint, num_packets, packet_len, timeout_ms, state: TransferState::Idle })
}

} // verus!
