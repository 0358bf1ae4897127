use vstd::prelude::*;
use vstd::utf8::{decode_utf8, valid_utf8};
use crate::buffer::ByteBuffer;

verus! {

/// Largest payload length a frame header may declare.
pub const BUFFER_SIZE: usize = 1024;

/// Why the daemon's byte stream cannot be understood.
#[derive(PartialEq, Eq, Structural, Clone, Copy, Debug)]
pub enum ProtocolError {
    /// The 4-byte length header is not made of hexadecimal digits.
    MalformedLength,
    /// The header declares more bytes than the buffer can hold.
    PacketTooBig(u32),
    /// The payload is not valid UTF-8.
    NotUtf8,
    /// The daemon answered the request with something other than `OKAY`.
    Refused,
}

/// The value of one ASCII hexadecimal digit, either case.
pub open spec fn hex_value(b: u8) -> Option<nat> {
    if 48 <= b <= 57 {
        Some((b - 48) as nat)
    } else if 97 <= b <= 102 {
        Some((b - 87) as nat)
    } else if 65 <= b <= 70 {
        Some((b - 55) as nat)
    } else {
        None
    }
}

/// Four bytes, each a hexadecimal digit.
pub open spec fn is_hex_header(h: Seq<u8>) -> bool {
    h.len() == 4 && forall|i: int| 0 <= i < 4 ==> (#[trigger] hex_value(h[i])) is Some
}

/// The big-endian number written by four hexadecimal digits.
pub open spec fn header_value(h: Seq<u8>) -> nat {
    4096 * hex_value(h[0])->0 + 256 * hex_value(h[1])->0 + 16 * hex_value(h[2])->0
        + hex_value(h[3])->0
}

/// The buffered bytes start with a full, well-formed header.
pub open spec fn has_header(b: Seq<u8>) -> bool {
    b.len() >= 4 && is_hex_header(b.take(4))
}

/// The payload length that the header at the front of `b` declares.
pub open spec fn declared_len(b: Seq<u8>) -> nat {
    header_value(b.take(4))
}

/// The bytes can never form a frame: a bad header, or one too large.
pub open spec fn frame_fault(b: Seq<u8>) -> Option<ProtocolError> {
    if b.len() < 4 {
        None
    } else if !has_header(b) {
        Some(ProtocolError::MalformedLength)
    } else if declared_len(b) > BUFFER_SIZE {
        Some(ProtocolError::PacketTooBig(declared_len(b) as u32))
    } else {
        None
    }
}

/// A whole frame, header and payload, is buffered.
pub open spec fn frame_complete(b: Seq<u8>) -> bool {
    has_header(b) && declared_len(b) <= BUFFER_SIZE && b.len() >= 4 + declared_len(b)
}

/// The payload bytes of the frame at the front of `b`.
pub open spec fn frame_payload(b: Seq<u8>) -> Seq<u8> {
    b.subrange(4, 4 + declared_len(b) as int)
}

/// Fewer than four bytes are never a fault and never a whole frame.
pub proof fn lemma_short_is_incomplete(b: Seq<u8>)
    requires
        b.len() < 4,
    ensures
        frame_fault(b) is None,
        !frame_complete(b),
{
}

/// A header that declares more than the buffer holds is fatal, whatever follows it.
pub proof fn lemma_oversized_is_fatal(b: Seq<u8>, rest: Seq<u8>)
    requires
        has_header(b),
        declared_len(b) > BUFFER_SIZE,
    ensures
        frame_fault(b + rest) == Some(ProtocolError::PacketTooBig(declared_len(b) as u32)),
{
    assert((b + rest).take(4) =~= b.take(4));
}

/// The value of one ASCII hexadecimal digit.
fn hex_digit(b: u8) -> (r: Option<u32>)
    ensures
        r is Some <==> hex_value(b) is Some,
        r is Some ==> r->0 == hex_value(b)->0,
{
    if 48 <= b && b <= 57 {
        Some((b - 48) as u32)
    } else if 97 <= b && b <= 102 {
        Some((b - 87) as u32)
    } else if 65 <= b && b <= 70 {
        Some((b - 55) as u32)
    } else {
        None
    }
}

/// Relies on String::from_utf8: `Ok` exactly when the bytes are UTF-8, holding the
/// characters they encode.
#[verifier::external_body]
fn utf8_text(bytes: Vec<u8>) -> (r: Option<String>)
    ensures
        r is Some <==> valid_utf8(bytes@),
        r is Some ==> r->0@ == decode_utf8(bytes@),
{
    String::from_utf8(bytes).ok()
}

impl crate::monitor::AdbMonitor {
    /// Reads a 4-byte hexadecimal length header.
    pub fn parse_length(data: &[u8]) -> (r: Result<u32, ProtocolError>)
        requires
            data@.len() == 4,
        ensures
            r is Ok <==> is_hex_header(data@),
            r matches Ok(v) ==> v == header_value(data@),
            r matches Err(e) ==> e == ProtocolError::MalformedLength,
    {
        let mut value: u32 = 0;
        let mut i: usize = 0;
        while i < 4
            invariant
                data@.len() == 4,
                i <= 4,
                forall|k: int| 0 <= k < i ==> (#[trigger] hex_value(data@[k])) is Some,
                value == partial_value(data@, i as int),
                value < pow16(i as int),
            decreases 4 - i,
        {
            match hex_digit(data[i]) {
                Some(d) => {
                    proof {
                        reveal_with_fuel(pow16, 5);
                    }
                    value = value * 16 + d;
                },
                None => {
                    return Err(ProtocolError::MalformedLength);
                },
            }
            i = i + 1;
        }
        proof {
            reveal_with_fuel(partial_value, 5);
        }
        Ok(value)
    }

    /// The length of the frame at the front of `input`, header included, when it
    /// is all there; `None` while more bytes are needed.
    pub fn available_packet_length(input: &[u8]) -> (r: Result<Option<usize>, ProtocolError>)
        ensures
            frame_fault(input@) matches Some(e) ==> r == Err::<Option<usize>, ProtocolError>(e),
            frame_fault(input@) is None && !frame_complete(input@) ==> r == Ok::<
                Option<usize>,
                ProtocolError,
            >(None),
            frame_complete(input@) ==> r == Ok::<Option<usize>, ProtocolError>(
                Some((4 + declared_len(input@)) as usize),
            ),
    {
        if input.len() < 4 {
            return Ok(None);
        }
        let header = vstd::slice::slice_subrange(input, 0, 4);
        assert(header@ == input@.take(4));
        let len = match Self::parse_length(header) {
            Ok(v) => v,
            Err(e) => {
                return Err(e);
            },
        };
        if len > BUFFER_SIZE as u32 {
            return Err(ProtocolError::PacketTooBig(len));
        }
        if input.len() - 4 >= len as usize {
            Ok(Some(4 + len as usize))
        } else {
            Ok(None)
        }
    }

    /// Decodes bytes as UTF-8 text.
    pub fn binary_to_string(data: &[u8]) -> (r: Result<String, ProtocolError>)
        ensures
            r is Ok <==> valid_utf8(data@),
            r matches Ok(s) ==> s@ == decode_utf8(data@),
            r matches Err(e) ==> e == ProtocolError::NotUtf8,
    {
        let raw = vstd::slice::slice_to_vec(data);
        match utf8_text(raw) {
            Some(s) => Ok(s),
            None => Err(ProtocolError::NotUtf8),
        }
    }

    /// Takes the frame at the front of the buffer, if it is all there, and returns
    /// its payload as text. Bytes stay in the buffer unless a frame is returned.
    pub fn read_packet(buf: &mut ByteBuffer) -> (r: Result<Option<String>, ProtocolError>)
        requires
            old(buf).wf(),
        ensures
            final(buf).wf(),
            final(buf).capacity() == old(buf).capacity(),
            frame_fault(old(buf)@) matches Some(e) ==> (r matches Err(x) && x == e),
            frame_fault(old(buf)@) is None && !frame_complete(old(buf)@) ==> r matches Ok(None),
            frame_complete(old(buf)@) && !valid_utf8(frame_payload(old(buf)@)) ==> (r matches Err(
                x,
            ) && x == ProtocolError::NotUtf8),
            frame_complete(old(buf)@) && valid_utf8(frame_payload(old(buf)@)) ==> (r matches Ok(
                Some(s),
            ) && s@ == decode_utf8(frame_payload(old(buf)@))),
            r matches Ok(Some(_)) ==> final(buf)@ == old(buf)@.skip(
                4 + declared_len(old(buf)@) as int,
            ),
            !(r matches Ok(Some(_))) ==> final(buf)@ == old(buf)@,
    {
        let len = match Self::available_packet_length(buf.peek()) {
            Ok(Some(len)) => len,
            Ok(None) => {
                return Ok(None);
            },
            Err(e) => {
                return Err(e);
            },
        };
        let payload = vstd::slice::slice_subrange(buf.peek(), 4, len);
        let data = match Self::binary_to_string(payload) {
            Ok(s) => s,
            Err(e) => {
                return Err(e);
            },
        };
        buf.consume(len);
        Ok(Some(data))
    }
}

/// The number written by the first `i` digits of a header.
pub open spec fn partial_value(h: Seq<u8>, i: int) -> nat
    decreases i,
{
    if i <= 0 {
        0
    } else {
        16 * partial_value(h, i - 1) + hex_value(h[i - 1])->0
    }
}

/// Sixteen to the power `i`.
pub open spec fn pow16(i: int) -> nat
    decreases i,
{
    if i <= 0 {
        1
    } else {
        16 * pow16(i - 1)
    }
}

} // verus!
