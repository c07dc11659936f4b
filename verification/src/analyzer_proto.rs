//! Wire format of a capture snapshot.
//!
//! A dump starts with a fixed-layout header — 8-byte total event byte count,
//! 4-byte sent-byte count, 1-byte overflow flag, 1-byte log channel, 1-byte
//! compatibility flag — in network byte order, followed immediately by the
//! payload bytes. The header always fully precedes the payload.

use vstd::prelude::*;
use crate::sched::{Connection, IoError};

verus! {

/// Length in bytes of the encoded header.
pub const HEADER_BYTES: usize = 15;

/// Snapshot header, sent before the payload.
#[derive(Clone, Copy, PartialEq, Eq, Structural, Debug)]
pub struct Header {
    /// Bytes the capture engine has produced since it was last armed.
    pub total_byte_count: u64,
    /// Payload bytes that follow this header.
    pub sent_bytes: u32,
    /// Whether the hardware message encoder reported an overflow.
    pub overflow_occurred: bool,
    /// Log channel identifier of the timing gateware.
    pub log_channel: u8,
    /// Kept for backward compatibility of dumps; always true.
    pub compat_flag: bool,
}

/// Big-endian encoding of a 64-bit value.
pub open spec fn u64_be_bytes(x: u64) -> Seq<u8> {
    seq![
        (x as int / 0x100000000000000 % 256) as u8,
        (x as int / 0x1000000000000 % 256) as u8,
        (x as int / 0x10000000000 % 256) as u8,
        (x as int / 0x100000000 % 256) as u8,
        (x as int / 0x1000000 % 256) as u8,
        (x as int / 0x10000 % 256) as u8,
        (x as int / 0x100 % 256) as u8,
        (x as int % 256) as u8,
    ]
}

/// Big-endian encoding of a 32-bit value.
pub open spec fn u32_be_bytes(x: u32) -> Seq<u8> {
    seq![
        (x as int / 0x1000000 % 256) as u8,
        (x as int / 0x10000 % 256) as u8,
        (x as int / 0x100 % 256) as u8,
        (x as int % 256) as u8,
    ]
}

/// Encoding of a flag byte.
pub open spec fn bool_byte(b: bool) -> u8 {
    if b {
        1u8
    } else {
        0u8
    }
}

/// The fixed wire layout of a header.
pub open spec fn header_bytes(h: Header) -> Seq<u8> {
    u64_be_bytes(h.total_byte_count) + u32_be_bytes(h.sent_bytes) + seq![
        bool_byte(h.overflow_occurred),
        h.log_channel,
        bool_byte(h.compat_flag),
    ]
}

/// An encoded header is always exactly [`HEADER_BYTES`] long.
pub proof fn lemma_header_bytes_len(h: Header)
    ensures
        header_bytes(h).len() == HEADER_BYTES,
{
}

/// Appends the big-endian bytes of `x` to `out`.
fn push_u64_be(out: &mut Vec<u8>, x: u64)
    ensures
        final(out)@ == old(out)@ + u64_be_bytes(x),
{
    out.push((x / 0x100000000000000 % 256) as u8);
    out.push((x / 0x1000000000000 % 256) as u8);
    out.push((x / 0x10000000000 % 256) as u8);
    out.push((x / 0x100000000 % 256) as u8);
    out.push((x / 0x1000000 % 256) as u8);
    out.push((x / 0x10000 % 256) as u8);
    out.push((x / 0x100 % 256) as u8);
    out.push((x % 256) as u8);
    assert(out@ =~= old(out)@ + u64_be_bytes(x));
}

/// Appends the big-endian bytes of `x` to `out`.
fn push_u32_be(out: &mut Vec<u8>, x: u32)
    ensures
        final(out)@ == old(out)@ + u32_be_bytes(x),
{
    out.push((x / 0x1000000 % 256) as u8);
    out.push((x / 0x10000 % 256) as u8);
    out.push((x / 0x100 % 256) as u8);
    out.push((x % 256) as u8);
    assert(out@ =~= old(out)@ + u32_be_bytes(x));
}

impl Header {
    /// The header on the wire.
    pub fn encode(&self) -> (r: Vec<u8>)
        ensures
            r@ == header_bytes(*self),
    {
        let mut out: Vec<u8> = Vec::new();
        push_u64_be(&mut out, self.total_byte_count);
        push_u32_be(&mut out, self.sent_bytes);
        out.push(if self.overflow_occurred { 1 } else { 0 });
        out.push(self.log_channel);
        out.push(if self.compat_flag { 1 } else { 0 });
        assert(out@ =~= header_bytes(*self));
        out
    }

    /// Writes the encoded header to the stream; it goes out whole or not at
    /// all.
    pub fn write_to(&self, stream: &mut Connection) -> (r: Result<(), IoError>)
        ensures
            old(stream).accepts(header_bytes(*self).len() as int) ==> {
                &&& r is Ok
                &&& final(stream).sent@ == old(stream).sent@ + header_bytes(*self)
            },
            !old(stream).accepts(header_bytes(*self).len() as int) ==> {
                &&& r == Err::<(), IoError>(IoError::ConnectionLost)
                &&& final(stream).sent == old(stream).sent
            },
            final(stream).limit == old(stream).limit,
    {
        let encoded = self.encode();
        stream.write(encoded.as_slice())
    }
}

} // verus!
