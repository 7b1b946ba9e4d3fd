//! Frames of the local connection: a four byte big-endian length, then that
//! many bytes.

use vstd::prelude::*;

use crate::error::{request_error, RuntimeErrorCode, RuntimeHostError, RuntimeHostResult};

verus! {

pub const DEFAULT_RUNTIME_MAX_FRAME_BYTES: usize = 1_048_576;

/// The number that four bytes hold, most significant byte first.
pub open spec fn big_endian(bytes: Seq<u8>) -> nat {
    (bytes[0] as nat) * 16_777_216 + (bytes[1] as nat) * 65_536 + (bytes[2] as nat) * 256 + (
    bytes[3] as nat)
}

/// The four bytes that hold a number below 2^32, most significant byte first.
pub open spec fn big_endian_bytes(value: nat) -> Seq<u8> {
    seq![
        ((value / 16_777_216) % 256) as u8,
        ((value / 65_536) % 256) as u8,
        ((value / 256) % 256) as u8,
        (value % 256) as u8,
    ]
}

/// What stands on the wire for a body.
pub open spec fn frame_bytes(body: Seq<u8>) -> Seq<u8> {
    big_endian_bytes(body.len()) + body
}

/// The lengths a frame may announce.
pub open spec fn frame_length_valid(length: nat, maximum_frame_bytes: nat) -> bool {
    0 < length <= maximum_frame_bytes
}

/// The refusal with a given code that the frame layer answers with.
pub open spec fn ipc_error(code: &'static str) -> RuntimeHostError {
    request_error(code, "runtime_local_ipc", RuntimeErrorCode::ProtocolInvalid)
}

fn protocol_error(code: &'static str) -> (error: RuntimeHostError)
    ensures
        error == ipc_error(code),
{
    RuntimeHostError::request(code, "runtime_local_ipc", RuntimeErrorCode::ProtocolInvalid)
}

/// Reads the length a frame header announces.
pub fn frame_length(header: &[u8; 4], maximum_frame_bytes: usize) -> (result: RuntimeHostResult<
    usize,
>)
    ensures
        frame_length_valid(big_endian(header@), maximum_frame_bytes as nat) ==> (result matches Ok(
            length,
        ) && length == big_endian(header@)),
        !frame_length_valid(big_endian(header@), maximum_frame_bytes as nat) ==> result == Err::<
            usize,
            RuntimeHostError,
        >(ipc_error("runtime_frame_length_invalid")),
{
    let length: u64 = header[0] as u64 * 16_777_216 + header[1] as u64 * 65_536 + header[2] as u64
        * 256 + header[3] as u64;
    if length == 0 || length > maximum_frame_bytes as u64 {
        return Err(protocol_error("runtime_frame_length_invalid"));
    }
    Ok(length as usize)
}

/// Puts an encoded body into a frame.
pub fn encode_frame(body: &Vec<u8>, maximum_frame_bytes: usize) -> (result: RuntimeHostResult<
    Vec<u8>,
>)
    requires
        body.len() + 4 <= usize::MAX,
    ensures
        frame_length_valid(body.len() as nat, maximum_frame_bytes as nat) && body.len() <= u32::MAX
            ==> (result matches Ok(frame) && frame@ == frame_bytes(body@)),
        !(frame_length_valid(body.len() as nat, maximum_frame_bytes as nat) && body.len()
            <= u32::MAX) ==> result == Err::<Vec<u8>, RuntimeHostError>(
            ipc_error("runtime_frame_length_invalid"),
        ),
{
    let length: usize = body.len();
    if length == 0 || length > maximum_frame_bytes || length as u64 > u32::MAX as u64 {
        return Err(protocol_error("runtime_frame_length_invalid"));
    }
    let wide: u64 = length as u64;
    let mut frame: Vec<u8> = Vec::with_capacity(length + 4);
    frame.push(((wide / 16_777_216) % 256) as u8);
    frame.push(((wide / 65_536) % 256) as u8);
    frame.push(((wide / 256) % 256) as u8);
    frame.push((wide % 256) as u8);
    let mut index: usize = 0;
    while index < length
        invariant
            index <= length,
            length == body.len(),
            frame@ == big_endian_bytes(length as nat) + body@.subrange(0, index as int),
        decreases length - index,
    {
        frame.push(body[index]);
        index += 1;
    }
    Ok(frame)
}

/// What one read from the stream gave.
#[derive(Debug, Clone)]
pub enum ReadEvent {
    /// Some bytes, at most as many as were asked for.
    Bytes(Vec<u8>),
    /// End of the stream.
    End,
    /// The read timed out or would have blocked.
    TimedOut,
    /// Any other read failure.
    Failed,
}

/// What a frame reader says after an event.
#[derive(Debug, Clone)]
pub enum FrameRead {
    /// Not finished: read again.
    More,
    /// A whole frame body.
    Data(Vec<u8>),
    /// Nothing arrived within the idle time.
    Idle,
    /// The peer closed the stream between two frames.
    Closed,
}

/// Collects one frame from a stream. The caller performs the reads.
#[derive(Debug, Clone)]
pub struct FrameReader {
    pub maximum_frame_bytes: usize,
    pub header: Vec<u8>,
    /// The announced length, once the header is complete.
    pub length: Option<usize>,
    pub body: Vec<u8>,
}

impl FrameReader {
    /// The bytes collected so far.
    pub open spec fn received(&self) -> Seq<u8> {
        self.header@ + self.body@
    }

    pub open spec fn wf(&self) -> bool {
        match self.length {
            None => self.header.len() < 4 && self.body.len() == 0,
            Some(length) => self.header.len() == 4 && length == big_endian(self.header@)
                && frame_length_valid(length as nat, self.maximum_frame_bytes as nat)
                && self.body.len() < length,
        }
    }

    /// How many bytes the next read may ask for.
    pub open spec fn wanted_spec(&self) -> int {
        match self.length {
            None => 4 - self.header.len(),
            Some(length) => length - self.body.len(),
        }
    }

    pub fn new(maximum_frame_bytes: usize) -> (reader: Self)
        ensures
            reader.wf(),
            reader.maximum_frame_bytes == maximum_frame_bytes,
            reader.length is None,
            reader.received() == Seq::<u8>::empty(),
    {
        FrameReader { maximum_frame_bytes, header: Vec::new(), length: None, body: Vec::new() }
    }

    pub fn wanted(&self) -> (count: usize)
        requires
            self.wf(),
        ensures
            count == self.wanted_spec(),
            count > 0,
    {
        match self.length {
            None => 4 - self.header.len(),
            Some(length) => length - self.body.len(),
        }
    }

    /// Takes what one read gave.
    pub fn accept(&mut self, event: ReadEvent) -> (result: RuntimeHostResult<FrameRead>)
        requires
            old(self).wf(),
            event matches ReadEvent::Bytes(bytes) ==> 0 < bytes.len() <= old(self).wanted_spec(),
        ensures
            final(self).maximum_frame_bytes == old(self).maximum_frame_bytes,
            match event {
                ReadEvent::Bytes(bytes) => {
                    let received = old(self).received() + bytes@;
                    &&& final(self).received() == received
                    &&& if received.len() < 4 {
                        &&& result matches Ok(FrameRead::More)
                        &&& final(self).wf()
                    } else if !frame_length_valid(
                        big_endian(received),
                        old(self).maximum_frame_bytes as nat,
                    ) {
                        result == Err::<FrameRead, RuntimeHostError>(
                            ipc_error("runtime_frame_length_invalid"),
                        )
                    } else if received.len() < 4 + big_endian(received) {
                        &&& result matches Ok(FrameRead::More)
                        &&& final(self).wf()
                    } else {
                        &&& result matches Ok(FrameRead::Data(data)) && data@ == received.skip(4)
                        &&& received.len() == 4 + big_endian(received)
                    }
                },
                ReadEvent::End => {
                    &&& *final(self) == *old(self)
                    &&& old(self).received().len() == 0 ==> (result matches Ok(FrameRead::Closed))
                    &&& old(self).received().len() > 0 ==> result == Err::<
                        FrameRead,
                        RuntimeHostError,
                    >(ipc_error("runtime_frame_truncated"))
                },
                ReadEvent::TimedOut => {
                    &&& *final(self) == *old(self)
                    &&& old(self).received().len() == 0 ==> (result matches Ok(FrameRead::Idle))
                    &&& old(self).received().len() > 0 ==> result == Err::<
                        FrameRead,
                        RuntimeHostError,
                    >(ipc_error("runtime_frame_timeout"))
                },
                ReadEvent::Failed => {
                    &&& *final(self) == *old(self)
                    &&& result == Err::<FrameRead, RuntimeHostError>(
                        ipc_error("runtime_frame_read_failed"),
                    )
                },
            },
    {
        let bytes = match event {
            ReadEvent::Bytes(bytes) => bytes,
            ReadEvent::End => {
                if self.header.len() == 0 {
                    return Ok(FrameRead::Closed);
                }
                return Err(protocol_error("runtime_frame_truncated"));
            },
            ReadEvent::TimedOut => {
                if self.header.len() == 0 {
                    return Ok(FrameRead::Idle);
                }
                return Err(protocol_error("runtime_frame_timeout"));
            },
            ReadEvent::Failed => {
                return Err(protocol_error("runtime_frame_read_failed"));
            },
        };
        let ghost before = *self;
        match self.length {
            None => {
                let mut bytes = bytes;
                self.header.append(&mut bytes);
                assert(self.received() =~= before.received() + event->Bytes_0@);
                if self.header.len() < 4 {
                    return Ok(FrameRead::More);
                }
                let header = [self.header[0], self.header[1], self.header[2], self.header[3]];
                assert(big_endian(header@) == big_endian(self.received()));
                let length = frame_length(&header, self.maximum_frame_bytes)?;
                self.length = Some(length);
                Ok(FrameRead::More)
            },
            Some(length) => {
                let mut bytes = bytes;
                self.body.append(&mut bytes);
                assert(self.received() =~= before.received() + event->Bytes_0@);
                assert(big_endian(self.received()) == big_endian(self.header@));
                if self.body.len() < length {
                    return Ok(FrameRead::More);
                }
                let data = self.body.clone();
                assert(data@ =~= self.body@);
                assert(self.received().skip(4) =~= self.body@);
                Ok(FrameRead::Data(data))
            },
        }
    }
}

/// The header of a frame announces its body's length, and what follows the
/// header is the body: a reader that gets all of `encode_frame`'s bytes hands
/// back what was encoded.
pub proof fn law_frame_round_trip(body: Seq<u8>)
    requires
        body.len() <= u32::MAX,
    ensures
        frame_bytes(body).len() == 4 + body.len(),
        big_endian(frame_bytes(body)) == body.len(),
        frame_bytes(body).skip(4) == body,
{
    let n: int = body.len() as int;
    let a = (n / 16_777_216) % 256;
    let b = (n / 65_536) % 256;
    let c = (n / 256) % 256;
    let d = n % 256;
    assert(a * 16_777_216 + b * 65_536 + c * 256 + d == n) by (nonlinear_arith)
        requires
            0 <= n <= 4_294_967_295,
            a == (n / 16_777_216) % 256,
            b == (n / 65_536) % 256,
            c == (n / 256) % 256,
            d == n % 256,
    ;
    assert(frame_bytes(body).skip(4) =~= body);
}

/// The first byte of a header counts most: of two lengths the one with the
/// greater first byte is greater, whatever follows, and equal first bytes leave
/// the decision to the second one, and so on.
pub proof fn law_first_header_byte_counts_most(left: Seq<u8>, right: Seq<u8>)
    requires
        left.len() == 4,
        right.len() == 4,
    ensures
        left[0] < right[0] ==> big_endian(left) < big_endian(right),
        left[0] == right[0] && left[1] < right[1] ==> big_endian(left) < big_endian(right),
        left[0] == right[0] && left[1] == right[1] && left[2] < right[2] ==> big_endian(left)
            < big_endian(right),
        left[0] == right[0] && left[1] == right[1] && left[2] == right[2] ==> big_endian(right)
            - big_endian(left) == right[3] - left[3],
        left == seq![0u8, 0, 0, 0] ==> big_endian(left) == 0,
{
}

/// A frame may be as long as the maximum and not longer, and never empty.
pub proof fn law_frames_are_bounded(length: nat, maximum_frame_bytes: nat)
    ensures
        frame_length_valid(length, maximum_frame_bytes) <==> length != 0 && length
            < maximum_frame_bytes + 1,
        maximum_frame_bytes > 0 ==> frame_length_valid(maximum_frame_bytes, maximum_frame_bytes),
        !frame_length_valid(0, maximum_frame_bytes),
{
}

} // verus!
