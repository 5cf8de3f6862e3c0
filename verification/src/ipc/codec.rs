//! IPC framing: a message is sent as its length (4 bytes, big-endian) and
//! then its encoded bytes.

use vstd::prelude::*;

use crate::bytes::extend_bytes;
use crate::ipc::error::IpcError;

verus! {

/// The largest IPC frame payload, 4 MiB.
pub const MAX_IPC_FRAME_SIZE: usize = 4194304;

/// Whether a payload length can be framed.
pub open spec fn valid_frame_len(len: nat) -> bool {
    0 < len <= MAX_IPC_FRAME_SIZE
}

/// Checks a frame length: a frame is not empty and not longer than
/// `MAX_IPC_FRAME_SIZE`.
pub fn validate_frame_len(len: usize) -> (r: Result<(), IpcError>)
    ensures
        len == 0 ==> (r matches Err(e) && e == IpcError::EmptyFrame),
        len > MAX_IPC_FRAME_SIZE ==> (r matches Err(e) && e == (IpcError::FrameTooLarge { len, max: MAX_IPC_FRAME_SIZE })),
        valid_frame_len(len as nat) ==> r is Ok,
{
    if len == 0 {
        return Err(IpcError::EmptyFrame);
    }
    if len > MAX_IPC_FRAME_SIZE {
        return Err(IpcError::FrameTooLarge { len, max: MAX_IPC_FRAME_SIZE });
    }
    Ok(())
}

/// The 4-byte big-endian header of a frame of `len` bytes.
pub open spec fn frame_header(len: nat) -> Seq<u8> {
    seq![(len / 16777216) as u8, ((len / 65536) % 256) as u8, ((len / 256) % 256) as u8, (len % 256) as u8]
}

/// The length that a 4-byte big-endian header gives.
pub open spec fn header_len(h: Seq<u8>) -> nat {
    ((h[0] as nat * 256 + h[1] as nat) * 256 + h[2] as nat) * 256 + h[3] as nat
}

/// Reading back the header of a length gives the length.
pub proof fn lemma_header_roundtrip(len: nat)
    requires
        len < 4294967296,
    ensures
        header_len(frame_header(len)) == len,
{
    let h = frame_header(len);
    assert(((len / 16777216) * 256 + (len / 65536) % 256) == len / 65536) by (nonlinear_arith)
        requires len < 4294967296;
    assert(((len / 65536) * 256 + (len / 256) % 256) == len / 256) by (nonlinear_arith);
    assert(((len / 256) * 256 + len % 256) == len) by (nonlinear_arith);
    assert(len / 16777216 < 256) by (nonlinear_arith)
        requires len < 4294967296;
    assert(h[0] as nat == len / 16777216);
    assert(h[1] as nat == (len / 65536) % 256);
    assert(h[2] as nat == (len / 256) % 256);
    assert(h[3] as nat == len % 256);
}

/// The frame of a payload: its header, then the payload.
pub open spec fn frame(payload: Seq<u8>) -> Seq<u8> {
    frame_header(payload.len()) + payload
}

/// Frames a payload; the payload must be a valid frame length.
pub fn encode_frame(payload: &[u8]) -> (r: Result<Vec<u8>, IpcError>)
    ensures
        payload@.len() == 0 ==> (r matches Err(e) && e == IpcError::EmptyFrame),
        payload@.len() > MAX_IPC_FRAME_SIZE ==> (r matches Err(e) && e == (IpcError::FrameTooLarge { len: payload@.len() as usize, max: MAX_IPC_FRAME_SIZE })),
        valid_frame_len(payload@.len()) ==> (r matches Ok(bytes) && bytes@ == frame(payload@)),
{
    let len = payload.len();
    validate_frame_len(len)?;
    let mut out: Vec<u8> = Vec::new();
    out.push((len / 16777216) as u8);
    out.push(((len / 65536) % 256) as u8);
    out.push(((len / 256) % 256) as u8);
    out.push((len % 256) as u8);
    extend_bytes(&mut out, payload);
    assert(out@ =~= frame(payload@));
    Ok(out)
}

/// Reads the payload length from a frame header and checks it.
pub fn decode_frame_len(header: [u8; 4]) -> (r: Result<usize, IpcError>)
    ensures
        valid_frame_len(header_len(header@)) ==> (r matches Ok(n) && n == header_len(header@)),
        header_len(header@) == 0 ==> (r matches Err(e) && e == IpcError::EmptyFrame),
        header_len(header@) > MAX_IPC_FRAME_SIZE ==> (r matches Err(e) && e == (IpcError::FrameTooLarge { len: header_len(header@) as usize, max: MAX_IPC_FRAME_SIZE })),
{
    assert(header_len(header@) < 4294967296) by (nonlinear_arith)
        requires
            header@[0] < 256, header@[1] < 256, header@[2] < 256, header@[3] < 256,
            header_len(header@) == ((header@[0] as nat * 256 + header@[1] as nat) * 256 + header@[2] as nat) * 256 + header@[3] as nat;
    let value: u32 = ((header[0] as u32 * 256 + header[1] as u32) * 256 + header[2] as u32) * 256 + header[3] as u32;
    let len = value as usize;
    validate_frame_len(len)?;
    Ok(len)
}

/// The payload of a frame, once its header has been read.
pub fn split_frame(bytes: &[u8]) -> (r: Result<Vec<u8>, IpcError>)
    ensures
        bytes@.len() >= 4 && valid_frame_len(header_len(bytes@.take(4))) && bytes@.len() == 4 + header_len(bytes@.take(4))
            ==> (r matches Ok(p) && p@ == bytes@.skip(4)),
        r matches Ok(p) ==> bytes@ == frame(p@),
{
    if bytes.len() < 4 {
        return Err(IpcError::EmptyFrame);
    }
    let header: [u8; 4] = [bytes[0], bytes[1], bytes[2], bytes[3]];
    assert(header@ =~= bytes@.take(4));
    let len = decode_frame_len(header)?;
    if bytes.len() - 4 != len {
        return Err(IpcError::TrailingBytes { bytes_read: len, frame_len: bytes.len() - 4 });
    }
    let mut payload: Vec<u8> = Vec::new();
    extend_bytes(&mut payload, &bytes[4..bytes.len()]);
    proof {
        assert(bytes@.subrange(4, bytes@.len() as int) =~= bytes@.skip(4));
        lemma_header_roundtrip(len as nat);
        lemma_header_of_value(header@);
        assert(bytes@ =~= frame(payload@));
    }
    Ok(payload)
}

/// A header is the header of the length it gives.
proof fn lemma_header_of_value(h: Seq<u8>)
    requires
        h.len() == 4,
    ensures
        frame_header(header_len(h)) == h,
{
    let n = header_len(h);
    assert(n / 16777216 == h[0] as nat && (n / 65536) % 256 == h[1] as nat && (n / 256) % 256 == h[2] as nat && n % 256 == h[3] as nat) by (nonlinear_arith)
        requires
            n == ((h[0] as nat * 256 + h[1] as nat) * 256 + h[2] as nat) * 256 + h[3] as nat,
            h[0] < 256, h[1] < 256, h[2] < 256, h[3] < 256;
    assert(frame_header(n) =~= h);
}

/// Reading the frame of a payload gives the payload back.
pub proof fn lemma_frame_roundtrip(payload: Seq<u8>)
    requires
        valid_frame_len(payload.len()),
    ensures
        frame(payload).take(4) == frame_header(payload.len()),
        header_len(frame(payload).take(4)) == payload.len(),
        frame(payload).skip(4) == payload,
{
    lemma_header_roundtrip(payload.len());
    assert(frame(payload).take(4) =~= frame_header(payload.len()));
    assert(frame(payload).skip(4) =~= payload);
}

/// Checks that a decoded message used all of its frame.
pub fn check_decoded_len(bytes_read: usize, frame_len: usize) -> (r: Result<(), IpcError>)
    ensures
        bytes_read == frame_len ==> r is Ok,
        bytes_read != frame_len ==> (r matches Err(e) && e == (IpcError::TrailingBytes { bytes_read, frame_len })),
{
    if bytes_read != frame_len {
        return Err(IpcError::TrailingBytes { bytes_read, frame_len });
    }
    Ok(())
}

} // verus!
