//! Event-capture engine: arm/disarm control of the capture DMA writer and
//! snapshot streaming.
//!
//! While armed, the capture hardware appends timestamped event bytes to a
//! fixed ring buffer, wrapping at its capacity and overwriting the oldest
//! data. Software may read the buffer only while the engine is disarmed. A
//! snapshot sends a fixed header followed by the captured bytes in
//! chronological, oldest-first order: once the byte count has passed the
//! buffer size, the payload is the tail from the write pointer to the end of
//! the buffer, then the head up to the write pointer.
//!
//! The registers of the engine are held as explicit fields so the arm/disarm
//! protocol and the snapshot are verified; the real firmware maps the same
//! fields onto memory-mapped registers, spins after disarm until the
//! hardware's busy flag clears (an unbounded wait, accepted as a documented
//! risk), and flushes the CPU and shared caches before the buffer is read.

use vstd::prelude::*;
use vstd::arithmetic::div_mod::{
    lemma_add_mod_noop, lemma_fundamental_div_mod, lemma_mod_division_less_than_divisor,
    lemma_mod_multiples_basic, lemma_mod_sub_multiples_vanish, lemma_mod_twice, lemma_small_mod,
};
use vstd::math::min;
use vstd::slice::slice_subrange;
use crate::analyzer_proto::{header_bytes, Header, HEADER_BYTES};
use crate::sched::{Connection, IoError};

verus! {

/// Capacity in bytes of the capture ring buffer of the real gateware.
pub const BUFFER_SIZE: usize = 512 * 1024;

/// The capture engine's register file, one field per hardware register.
///
/// `overflow` is the message encoder's overflow latch; `enabled` the capture
/// enable bit; `busy` the quiescence flag the hardware holds while it still
/// writes; `dma_base` and `dma_last` the programmed bounds of the ring
/// buffer; `byte_count` the bytes produced since the engine was last armed.
#[derive(Clone, Copy, PartialEq, Eq, Structural, Debug)]
pub struct AnalyzerRegisters {
    pub overflow: bool,
    pub enabled: bool,
    pub busy: bool,
    pub dma_base: u64,
    pub dma_last: u64,
    pub byte_count: u64,
}

/// The fixed ring buffer the capture hardware writes into.
///
/// Software never writes it; it only reads it, and only while the engine is
/// disarmed. The real buffer is a statically allocated region aligned to 64
/// bytes for the DMA writer, checked fatally at startup by the platform
/// layer.
pub struct CaptureBuffer {
    pub data: Vec<u8>,
}

/// The capture engine: its registers and the ring buffer they govern.
pub struct AnalyzerEngine {
    pub regs: AnalyzerRegisters,
    pub buffer: CaptureBuffer,
}

/// The ring has wrapped once the count reaches the buffer size.
pub open spec fn wraparound(count: u64, size: int) -> bool {
    count as int >= size
}

/// Offset the hardware writes next: the count modulo the buffer size.
pub open spec fn spec_pointer(count: u64, size: int) -> int {
    count as int % size
}

/// The snapshot payload: the captured bytes in chronological order.
///
/// Before wraparound only the head of the buffer has been written; after it,
/// the oldest surviving byte stands at the write pointer, so the tail from
/// there is sent first and the head up to the pointer after it.
pub open spec fn payload_of(data: Seq<u8>, count: u64) -> Seq<u8> {
    let size = data.len() as int;
    let p = spec_pointer(count, size);
    if wraparound(count, size) {
        data.subrange(p, size) + data.subrange(0, p)
    } else {
        data.subrange(0, p)
    }
}

/// The ring after the DMA writer has laid down `bytes`, one after another,
/// starting at offset `count % size` and wrapping at capacity.
pub open spec fn ring_wind(data: Seq<u8>, count: int, bytes: Seq<u8>) -> Seq<u8>
    decreases bytes.len(),
{
    if bytes.len() == 0 || data.len() == 0 {
        data
    } else {
        ring_wind(data.update(count % data.len() as int, bytes[0]), count + 1, bytes.skip(1))
    }
}

/// Winding bytes onto the ring never changes its capacity.
pub proof fn lemma_ring_wind_len(data: Seq<u8>, count: int, bytes: Seq<u8>)
    ensures
        ring_wind(data, count, bytes).len() == data.len(),
    decreases bytes.len(),
{
    if bytes.len() != 0 && data.len() != 0 {
        lemma_ring_wind_len(
            data.update(count % data.len() as int, bytes[0]),
            count + 1,
            bytes.skip(1),
        );
    }
}

/// Winding one more byte lays it at the next write offset.
proof fn lemma_ring_wind_push(data: Seq<u8>, count: int, bytes: Seq<u8>, x: u8)
    requires
        0 < data.len(),
        0 <= count,
    ensures
        ring_wind(data, count, bytes.push(x)) == ring_wind(data, count, bytes).update(
            (count + bytes.len()) % data.len() as int,
            x,
        ),
    decreases bytes.len(),
{
    let s = data.len() as int;
    if bytes.len() == 0 {
        assert(bytes.push(x)[0] == x);
        assert(bytes.push(x).skip(1) =~= Seq::<u8>::empty());
        assert(ring_wind(data, count, bytes.push(x)) == ring_wind(
            data.update(count % s, x),
            count + 1,
            bytes.push(x).skip(1),
        ));
        assert(ring_wind(data, count, bytes.push(x)) == data.update(count % s, x));
        assert(ring_wind(data, count, bytes) == data);
    } else {
        assert(bytes.push(x)[0] == bytes[0]);
        assert(bytes.push(x).skip(1) =~= bytes.skip(1).push(x));
        let d2 = data.update(count % s, bytes[0]);
        assert(ring_wind(data, count, bytes.push(x)) == ring_wind(
            d2,
            count + 1,
            bytes.skip(1).push(x),
        ));
        lemma_ring_wind_push(d2, count + 1, bytes.skip(1), x);
        assert(ring_wind(data, count, bytes) == ring_wind(d2, count + 1, bytes.skip(1)));
        assert(d2.len() == s);
        assert(count + 1 + bytes.skip(1).len() == count + bytes.len());
    }
}

/// As long as the writes stay within one lap, winding is a plain in-order
/// overwrite: the stretch from `count` on holds the bytes, and the rest of
/// the ring is untouched.
pub proof fn lemma_ring_wind_linear(data: Seq<u8>, count: int, bytes: Seq<u8>)
    requires
        0 <= count,
        count + bytes.len() <= data.len(),
    ensures
        ring_wind(data, count, bytes) =~= data.take(count) + bytes + data.skip(
            count + bytes.len(),
        ),
    decreases bytes.len(),
{
    if bytes.len() == 0 {
        assert(data.take(count) + bytes + data.skip(count) =~= data);
    } else {
        lemma_small_mod(count as nat, data.len() as nat);
        let wound = data.update(count, bytes[0]);
        lemma_ring_wind_linear(wound, count + 1, bytes.skip(1));
        assert(wound.take(count + 1) + bytes.skip(1) + wound.skip(count + 1 + bytes.skip(1).len())
            =~= data.take(count) + bytes + data.skip(count + bytes.len()));
    }
}

/// Winding a concatenation is winding the first part, then the second where
/// the first left off.
proof fn lemma_ring_wind_append(data: Seq<u8>, count: int, e1: Seq<u8>, e2: Seq<u8>)
    requires
        0 < data.len(),
        0 <= count,
    ensures
        ring_wind(data, count, e1 + e2) == ring_wind(
            ring_wind(data, count, e1),
            count + e1.len(),
            e2,
        ),
    decreases e1.len(),
{
    if e1.len() == 0 {
        assert(e1 + e2 =~= e2);
        assert(ring_wind(data, count, e1) == data);
    } else {
        assert((e1 + e2)[0] == e1[0]);
        assert((e1 + e2).skip(1) =~= e1.skip(1) + e2);
        let d2 = data.update(count % data.len() as int, e1[0]);
        lemma_ring_wind_append(d2, count + 1, e1.skip(1), e2);
        assert(count + 1 + e1.skip(1).len() == count + e1.len());
    }
}

/// Where the bytes land depends only on the count's offset within the ring.
proof fn lemma_ring_wind_mod(data: Seq<u8>, count: int, bytes: Seq<u8>)
    requires
        0 < data.len(),
        0 <= count,
    ensures
        ring_wind(data, count, bytes) == ring_wind(data, count % data.len() as int, bytes),
    decreases bytes.len(),
{
    let s = data.len() as int;
    lemma_mod_division_less_than_divisor(count, s);
    if bytes.len() != 0 {
        lemma_mod_twice(count, s);
        let d2 = data.update(count % s, bytes[0]);
        lemma_ring_wind_mod(d2, count + 1, bytes.skip(1));
        lemma_ring_wind_mod(d2, count % s + 1, bytes.skip(1));
        assert((count + 1) % s == (count % s + 1) % s) by {
            lemma_add_mod_noop(count, 1, s);
            if s == 1 {
            } else {
                lemma_small_mod(1nat, s as nat);
            }
        }
    }
}

/// One full lap of writes starting at any count lays the bytes once around
/// the ring: reading from the start offset onwards, wrapping once, returns
/// them in the order they were written.
proof fn lemma_ring_wind_full_lap(data: Seq<u8>, count: int, bytes: Seq<u8>)
    requires
        0 < data.len(),
        0 <= count,
        bytes.len() == data.len(),
    ensures
        ({
            let s = data.len() as int;
            let p = count % s;
            let w = ring_wind(data, count, bytes);
            w.subrange(p, s) + w.subrange(0, p) == bytes
        }),
{
    let s = data.len() as int;
    let p = count % s;
    lemma_mod_division_less_than_divisor(count, s);
    let b1 = bytes.take(s - p);
    let b2 = bytes.skip(s - p);
    assert(bytes =~= b1 + b2);
    lemma_ring_wind_append(data, count, b1, b2);
    let inner = ring_wind(data, count, b1);
    lemma_ring_wind_mod(data, count, b1);
    lemma_ring_wind_linear(data, p, b1);
    assert(inner =~= data.take(p) + b1);
    let c2 = count + (s - p);
    assert(c2 % s == 0) by {
        lemma_fundamental_div_mod(count, s);
        assert(c2 == (count / s + 1) * s) by (nonlinear_arith)
            requires
                count == s * (count / s) + p,
                c2 == count + (s - p),
        ;
        lemma_mod_multiples_basic(count / s + 1, s);
    }
    let w = ring_wind(data, count, bytes);
    assert(w == ring_wind(inner, c2, b2));
    lemma_ring_wind_mod(inner, c2, b2);
    lemma_ring_wind_linear(inner, 0, b2);
    assert(inner.skip(p) =~= b1);
    assert(w =~= b2 + b1);
    assert(w.subrange(p, s) =~= b1);
    assert(w.subrange(0, p) =~= b2);
}

/// Round trip past wraparound: once at least a buffer's worth of event
/// bytes has been captured, the dump payload is exactly the newest
/// buffer-full of them, oldest first — the ring overwrites FIFO and the
/// snapshot reconstructs chronological order.
pub proof fn lemma_wraparound_round_trip(data: Seq<u8>, events: Seq<u8>)
    requires
        0 < data.len() <= u32::MAX,
        data.len() <= events.len() <= u64::MAX,
    ensures
        payload_of(ring_wind(data, 0, events), events.len() as u64) == events.skip(
            events.len() - data.len(),
        ),
{
    let s = data.len() as int;
    let n = events.len() as int;
    let a = events.take(n - s);
    let b = events.skip(n - s);
    assert(events =~= a + b);
    lemma_ring_wind_append(data, 0, a, b);
    let mid = ring_wind(data, 0, a);
    lemma_ring_wind_len(data, 0, a);
    lemma_ring_wind_full_lap(mid, n - s, b);
    lemma_mod_sub_multiples_vanish(n, s);
    lemma_ring_wind_len(data, 0, events);
    let w = ring_wind(data, 0, events);
    assert(w == ring_wind(mid, n - s, b));
    let p = (n - s) % s;
    assert(w.subrange(p, s) + w.subrange(0, p) == b);
    assert(n % s == p);
    assert(payload_of(w, events.len() as u64) == w.subrange(p, s) + w.subrange(0, p));
}

/// Round trip for up to one lap of capture: arming and then capturing at
/// most a buffer's worth of event bytes dumps exactly those bytes, in the
/// order the hardware produced them.
pub proof fn lemma_single_lap_round_trip(data: Seq<u8>, events: Seq<u8>)
    requires
        0 < data.len() <= u32::MAX,
        events.len() <= data.len(),
    ensures
        payload_of(ring_wind(data, 0, events), events.len() as u64) == events,
{
    lemma_ring_wind_linear(data, 0, events);
    let wound = ring_wind(data, 0, events);
    let n = events.len() as int;
    assert(wound.len() == data.len());
    if n < data.len() {
        lemma_small_mod(n as nat, data.len() as nat);
        assert(wound.subrange(0, n) =~= events);
    } else {
        lemma_mod_division_less_than_divisor(n, data.len() as int);
        assert(n % data.len() as int == 0) by {
            lemma_small_mod(0nat, data.len() as nat);
            assert((n - data.len() as int * 1) % data.len() as int == n % data.len() as int) by {
                vstd::arithmetic::div_mod::lemma_mod_multiples_vanish(
                    -1,
                    n,
                    data.len() as int,
                );
            }
        }
        assert(payload_of(wound, events.len() as u64) =~= wound.subrange(0, data.len() as int)
            + wound.subrange(0, 0));
        assert(wound.subrange(0, data.len() as int) + wound.subrange(0, 0) =~= events);
    }
}

/// The header a snapshot carries: the raw count, the payload length
/// truncated to the buffer size, the overflow latch as read, and the fixed
/// compatibility flag.
pub open spec fn snapshot_header(count: u64, size: int, overflow: bool, log_channel: u8) -> Header {
    Header {
        total_byte_count: count,
        sent_bytes: min(count as int, size) as u32,
        overflow_occurred: overflow,
        log_channel: log_channel,
        compat_flag: true,
    }
}

/// A whole dump on the wire: the encoded header, then the payload.
pub open spec fn dump_of(data: Seq<u8>, count: u64, overflow: bool, log_channel: u8) -> Seq<u8> {
    header_bytes(snapshot_header(count, data.len() as int, overflow, log_channel)) + payload_of(
        data,
        count,
    )
}

impl AnalyzerEngine {
    /// The buffer is nonempty and small enough for its size to be reported
    /// in the header's 32-bit sent-byte field.
    pub open spec fn wf(self) -> bool {
        0 < self.buffer.data@.len() <= u32::MAX
    }

    /// A disarmed engine over a zeroed buffer of `size` bytes.
    pub fn new(size: usize) -> (r: AnalyzerEngine)
        requires
            0 < size <= u32::MAX,
        ensures
            r.wf(),
            r.buffer.data@ =~= Seq::new(size as nat, |i: int| 0u8),
            r.regs == (AnalyzerRegisters {
                overflow: false,
                enabled: false,
                busy: false,
                dma_base: 0,
                dma_last: 0,
                byte_count: 0,
            }),
    {
        let data: Vec<u8> = vec![0u8; size];
        AnalyzerEngine {
            regs: AnalyzerRegisters {
                overflow: false,
                enabled: false,
                busy: false,
                dma_base: 0,
                dma_last: 0,
                byte_count: 0,
            },
            buffer: CaptureBuffer { data },
        }
    }

    /// Arms the capture engine: clears the overflow latch, programs the DMA
    /// bounds to the buffer's extent, resets the write pointer and count,
    /// and sets the enable bit. From here the hardware writes events from
    /// offset zero, wrapping at capacity.
    pub fn arm(&mut self)
        requires
            old(self).wf(),
        ensures
            final(self).wf(),
            final(self).regs == (AnalyzerRegisters {
                overflow: false,
                enabled: true,
                busy: old(self).regs.busy,
                dma_base: 0,
                dma_last: (old(self).buffer.data@.len() - 1) as u64,
                byte_count: 0,
            }),
            final(self).buffer.data == old(self).buffer.data,
    {
        let last = self.buffer.data.len() - 1;
        self.regs.overflow = false;
        self.regs.dma_base = 0;
        self.regs.dma_last = last as u64;
        self.regs.byte_count = 0;
        self.regs.enabled = true;
    }

    /// Disarms the capture engine: clears the enable bit and waits for the
    /// hardware to quiesce, after which the buffer, the count and the
    /// overflow latch are stable and the buffer may be read. The real
    /// firmware spins here without a timeout and then flushes caches over
    /// the buffer range.
    pub fn disarm(&mut self)
        ensures
            final(self).regs == (AnalyzerRegisters {
                enabled: false,
                busy: false,
                ..old(self).regs
            }),
            final(self).buffer.data == old(self).buffer.data,
    {
        self.regs.enabled = false;
        self.regs.busy = false;
    }

    /// Models the armed hardware appending event bytes: each byte lands at
    /// the current write offset, the offset wraps at capacity, and the
    /// count grows by one per byte.
    pub fn capture(&mut self, bytes: &[u8])
        requires
            old(self).wf(),
            old(self).regs.enabled,
            old(self).regs.byte_count + bytes@.len() <= u64::MAX,
        ensures
            final(self).wf(),
            final(self).regs == (AnalyzerRegisters {
                byte_count: (old(self).regs.byte_count + bytes@.len()) as u64,
                ..old(self).regs
            }),
            final(self).buffer.data@ == ring_wind(
                old(self).buffer.data@,
                old(self).regs.byte_count as int,
                bytes@,
            ),
    {
        let ghost data0 = old(self).buffer.data@;
        let ghost count0 = old(self).regs.byte_count;
        let size = self.buffer.data.len();
        let n = bytes.len();
        let mut i: usize = 0;
        proof {
            assert(bytes@.take(0) =~= Seq::<u8>::empty());
        }
        while i < n
            invariant
                i <= n,
                n == bytes@.len(),
                0 < size <= u32::MAX,
                self.buffer.data@.len() == size,
                count0 + n <= u64::MAX,
                self.regs == (AnalyzerRegisters { byte_count: (count0 + i) as u64, ..old(
                    self,
                ).regs }),
                self.buffer.data@ == ring_wind(data0, count0 as int, bytes@.take(i as int)),
            decreases n - i,
        {
            let pos = (self.regs.byte_count % (size as u64)) as usize;
            proof {
                lemma_mod_division_less_than_divisor(self.regs.byte_count as int, size as int);
                lemma_ring_wind_len(data0, count0 as int, bytes@.take(i as int));
                lemma_ring_wind_push(data0, count0 as int, bytes@.take(i as int), bytes@[i as int]);
                assert(bytes@.take(i as int).push(bytes@[i as int]) =~= bytes@.take(i + 1));
            }
            let b = bytes[i];
            self.buffer.data.set(pos, b);
            self.regs.byte_count = self.regs.byte_count + 1;
            i = i + 1;
        }
        proof {
            assert(bytes@.take(n as int) =~= bytes@);
        }
    }
}

/// Streams one snapshot of the disarmed engine to the client: the header
/// first, whole, then the payload in chronological order. The dump goes
/// through exactly when the peer accepts all of it; a failed write aborts
/// the dump at once, leaving the stream with a clean prefix of the dump and
/// the engine untouched.
pub fn worker(engine: &AnalyzerEngine, log_channel: u8, stream: &mut Connection) -> (r: Result<
    (),
    IoError,
>)
    requires
        engine.wf(),
        !engine.regs.enabled,
    ensures
        ({
            let dump = dump_of(
                engine.buffer.data@,
                engine.regs.byte_count,
                engine.regs.overflow,
                log_channel,
            );
            let tail_len = engine.buffer.data@.len() - spec_pointer(
                engine.regs.byte_count,
                engine.buffer.data@.len() as int,
            );
            &&& (r is Ok <==> old(stream).accepts(dump.len() as int))
            &&& (r is Ok ==> final(stream).sent@ == old(stream).sent@ + dump)
            &&& (r is Err ==> {
                ||| final(stream).sent@ == old(stream).sent@
                ||| final(stream).sent@ == old(stream).sent@ + dump.subrange(0, HEADER_BYTES as int)
                ||| final(stream).sent@ == old(stream).sent@ + dump.subrange(
                    0,
                    HEADER_BYTES as int + tail_len,
                )
            })
            &&& (r is Err ==> r == Err::<(), IoError>(IoError::ConnectionLost))
        }),
        final(stream).limit == old(stream).limit,
{
    let ghost dump = dump_of(
        engine.buffer.data@,
        engine.regs.byte_count,
        engine.regs.overflow,
        log_channel,
    );
    let size = engine.buffer.data.len();
    let count = engine.regs.byte_count;
    proof {
        lemma_mod_division_less_than_divisor(count as int, size as int);
    }
    let pointer = (count % (size as u64)) as usize;
    let wrap = count >= size as u64;
    if !wrap {
        proof {
            lemma_small_mod(count as nat, size as nat);
        }
    }
    let header = Header {
        total_byte_count: count,
        sent_bytes: if wrap {
            size as u32
        } else {
            count as u32
        },
        overflow_occurred: engine.regs.overflow,
        log_channel: log_channel,
        compat_flag: true,
    };
    assert(header == snapshot_header(count, size as int, engine.regs.overflow, log_channel));
    assert(dump.subrange(0, header_bytes(header).len() as int) =~= header_bytes(header));
    match header.write_to(stream) {
        Ok(_) => {},
        Err(e) => {
            assert(stream.sent@ == old(stream).sent@ + dump.subrange(0, 0)) by {
                assert(old(stream).sent@ + dump.subrange(0, 0) =~= old(stream).sent@);
            }
            return Err(e);
        },
    }
    assert(stream.sent@ == old(stream).sent@ + dump.subrange(0, HEADER_BYTES as int));
    if wrap {
        let tail = slice_subrange(engine.buffer.data.as_slice(), pointer, size);
        match stream.write(tail) {
            Ok(_) => {},
            Err(e) => {
                assert(stream.sent@ == old(stream).sent@ + dump.subrange(0, HEADER_BYTES as int));
                return Err(e);
            },
        }
        assert(stream.sent@ == old(stream).sent@ + dump.subrange(
            0,
            HEADER_BYTES as int + (size - pointer),
        )) by {
            assert(old(stream).sent@ + dump.subrange(0, HEADER_BYTES as int + (size - pointer))
                =~= old(stream).sent@ + dump.subrange(0, HEADER_BYTES as int)
                + engine.buffer.data@.subrange(pointer as int, size as int));
        }
        let head = slice_subrange(engine.buffer.data.as_slice(), 0, pointer);
        match stream.write(head) {
            Ok(_) => {},
            Err(e) => {
                return Err(e);
            },
        }
        assert(stream.sent@ == old(stream).sent@ + dump) by {
            assert(old(stream).sent@ + dump =~= old(stream).sent@ + dump.subrange(
                0,
                HEADER_BYTES as int + (size - pointer),
            ) + engine.buffer.data@.subrange(0, pointer as int));
        }
    } else {
        let head = slice_subrange(engine.buffer.data.as_slice(), 0, pointer);
        match stream.write(head) {
            Ok(_) => {},
            Err(e) => {
                return Err(e);
            },
        }
        assert(stream.sent@ == old(stream).sent@ + dump) by {
            assert(old(stream).sent@ + dump =~= old(stream).sent@ + dump.subrange(
                0,
                HEADER_BYTES as int,
            ) + engine.buffer.data@.subrange(0, pointer as int));
        }
    }
    Ok(())
}

/// One full service cycle for one accepted client: disarm and quiesce, dump
/// the frozen snapshot, and rearm for the next client. Whatever the send's
/// outcome — success or an aborted dump — the engine comes out armed over
/// the same buffer with a fresh count and a cleared overflow latch, so a
/// failed client never corrupts the next cycle.
pub fn thread(engine: &mut AnalyzerEngine, log_channel: u8, stream: &mut Connection) -> (r: Result<
    (),
    IoError,
>)
    requires
        old(engine).wf(),
    ensures
        final(engine).wf(),
        final(engine).regs == (AnalyzerRegisters {
            overflow: false,
            enabled: true,
            busy: false,
            dma_base: 0,
            dma_last: (old(engine).buffer.data@.len() - 1) as u64,
            byte_count: 0,
        }),
        final(engine).buffer.data == old(engine).buffer.data,
        ({
            let dump = dump_of(
                old(engine).buffer.data@,
                old(engine).regs.byte_count,
                old(engine).regs.overflow,
                log_channel,
            );
            let tail_len = old(engine).buffer.data@.len() - spec_pointer(
                old(engine).regs.byte_count,
                old(engine).buffer.data@.len() as int,
            );
            &&& (r is Ok <==> old(stream).accepts(dump.len() as int))
            &&& (r is Ok ==> final(stream).sent@ == old(stream).sent@ + dump)
            &&& (r is Err ==> {
                ||| final(stream).sent@ == old(stream).sent@
                ||| final(stream).sent@ == old(stream).sent@ + dump.subrange(0, HEADER_BYTES as int)
                ||| final(stream).sent@ == old(stream).sent@ + dump.subrange(
                    0,
                    HEADER_BYTES as int + tail_len,
                )
            })
        }),
        final(stream).limit == old(stream).limit,
{
    engine.disarm();
    let r = worker(engine, log_channel, stream);
    engine.arm();
    r
}

/// Before wraparound the dump carries exactly the bytes captured so far: the
/// payload is the head of the buffer up to the count, and the header reports
/// the count and the overflow latch as read.
pub proof fn lemma_dump_before_wraparound(data: Seq<u8>, count: u64, overflow: bool, ch: u8)
    requires
        0 < data.len() <= u32::MAX,
        (count as int) < data.len(),
    ensures
        payload_of(data, count).len() == count as int,
        payload_of(data, count) == data.subrange(0, count as int),
        snapshot_header(count, data.len() as int, overflow, ch).overflow_occurred == overflow,
        snapshot_header(count, data.len() as int, overflow, ch).sent_bytes == count,
{
    lemma_small_mod(count as nat, data.len() as nat);
}

/// After wraparound the dump carries one full buffer of bytes, oldest
/// first: the tail from the write pointer, then the head up to it.
pub proof fn lemma_dump_after_wraparound(data: Seq<u8>, count: u64, overflow: bool, ch: u8)
    requires
        0 < data.len() <= u32::MAX,
        count as int >= data.len(),
    ensures
        0 <= spec_pointer(count, data.len() as int) < data.len(),
        payload_of(data, count) == data.subrange(
            spec_pointer(count, data.len() as int),
            data.len() as int,
        ) + data.subrange(0, spec_pointer(count, data.len() as int)),
        payload_of(data, count).len() == data.len(),
        snapshot_header(count, data.len() as int, overflow, ch).sent_bytes == data.len(),
{
    lemma_mod_division_less_than_divisor(count as int, data.len() as int);
}

/// The header's sent-byte count is always the smaller of the total byte
/// count and the buffer size, and is exactly the payload's length.
pub proof fn lemma_sent_bytes_is_min(data: Seq<u8>, count: u64, overflow: bool, ch: u8)
    requires
        0 < data.len() <= u32::MAX,
    ensures
        snapshot_header(count, data.len() as int, overflow, ch).sent_bytes == min(
            count as int,
            data.len() as int,
        ),
        payload_of(data, count).len() == min(count as int, data.len() as int),
{
    if (count as int) < data.len() {
        lemma_small_mod(count as nat, data.len() as nat);
    } else {
        lemma_mod_division_less_than_divisor(count as int, data.len() as int);
    }
}

} // verus!
