//! Chunked transmission of framed transfers over a write-only transport.
//!
//! A transfer of arbitrary length is split into chunks sized to the framing
//! buffer, each chunk is framed by the codec, and one transport write is
//! issued per chunk, strictly in input order. The first chunk carries the
//! transfer's declared role; every later chunk is data, because the device
//! distinguishes command from data only at the very first byte of the whole
//! transfer. The first transport error aborts the remaining chunks.

use crate::framing::chunk_role;
use crate::framing::encode;
use crate::framing::max_payload_len;
use crate::framing::frame_byte;
use crate::framing::framed_len;
use crate::framing::Role;
use vstd::arithmetic::div_mod::lemma_div_is_ordered;
use vstd::arithmetic::div_mod::lemma_fundamental_div_mod;
use vstd::arithmetic::div_mod::lemma_fundamental_div_mod_converse_div;
use vstd::arithmetic::mul::lemma_mul_inequality;
use vstd::prelude::*;
use vstd::slice::slice_subrange;
use vstd::slice::slice_to_vec;

verus! {

/// Raw payload bytes that fit one chunk of a `cap`-byte framing buffer:
/// framing emits 9 bits for every 8 payload bits.
pub open spec fn chunk_cap(cap: nat) -> nat {
    cap * 8 / 9
}

/// The number of chunks a payload of `n` bytes splits into, at `c` bytes
/// per chunk.
pub open spec fn chunk_count(n: nat, c: nat) -> nat
    recommends
        1 <= c,
{
    ((n + c - 1) / (c as int)) as nat
}

/// Chunk `i` of `bytes`, at `c` bytes per chunk: the bytes from `i * c`,
/// up to `c` of them.
pub open spec fn spec_chunk(bytes: Seq<u8>, c: nat, i: int) -> Seq<u8> {
    bytes.subrange(
        i * c,
        if (i + 1) * c <= bytes.len() {
            (i + 1) * c
        } else {
            bytes.len() as int
        },
    )
}

/// The framed bytes of one chunk.
pub open spec fn frame_of(role: Role, chunk: Seq<u8>) -> Seq<u8> {
    Seq::new(framed_len(chunk.len()), |j: int| frame_byte(role, chunk, j))
}

/// The transport writes that sending `bytes` under `role` issues, in
/// order: one framed chunk per write, the first under the declared role,
/// the rest as data.
pub open spec fn spec_writes(role: Role, bytes: Seq<u8>, c: nat) -> Seq<(Role, Seq<u8>)> {
    Seq::new(
        chunk_count(bytes.len(), c),
        |i: int|
            (chunk_role(role, i), frame_of(chunk_role(role, i), spec_chunk(bytes, c, i))),
    )
}

/// A transport that carries already-framed bytes to the device, one bus
/// transaction per call.
///
/// The `log` models everything the transport has accepted, in order; a
/// failed call accepts nothing.
pub trait Transport {
    /// The transport's own error type.
    type Error;

    /// The writes this transport has accepted so far, in order: the role
    /// under which each was issued, and the bytes carried. A transport
    /// meant for verified callers overrides this; the default stands for
    /// outside transports whose history is not modelled, and nothing is
    /// provable about what they received.
    open spec fn log(&self) -> Seq<(Role, Seq<u8>)> {
        Seq::empty()
    }

    /// Issue one bus transaction of command-framed bytes.
    fn write_commands(&mut self, bytes: &[u8]) -> (r: Result<(), Self::Error>)
        ensures
            r is Ok ==> final(self).log() == old(self).log().push((Role::Command, bytes@)),
            r is Err ==> final(self).log() == old(self).log(),
    ;

    /// Issue one bus transaction of data-framed bytes.
    fn write_data(&mut self, bytes: &[u8]) -> (r: Result<(), Self::Error>)
        ensures
            r is Ok ==> final(self).log() == old(self).log().push((Role::Data, bytes@)),
            r is Err ==> final(self).log() == old(self).log(),
    ;
}

/// One write accepted by a [`RecordingTransport`].
#[derive(Debug, PartialEq, Eq)]
pub struct WriteRecord {
    /// The role under which the write was issued.
    pub role: Role,
    /// The framed bytes the write carried.
    pub bytes: Vec<u8>,
}

/// The error a [`RecordingTransport`] reports for a refused write.
#[derive(Debug, Clone, Copy, PartialEq, Eq, Structural)]
pub struct BusFault;

/// An in-memory transport that records every write it accepts and can be
/// told to refuse the write with a given index, so that abort behaviour
/// can be exercised without hardware.
pub struct RecordingTransport {
    /// The accepted writes, in order.
    pub writes: Vec<WriteRecord>,
    /// The index of the single write that will be refused, if any.
    pub fail_at: Option<usize>,
}

impl RecordingTransport {
    /// A transport that accepts every write.
    pub fn new() -> (r: RecordingTransport)
        ensures
            r.log() == Seq::<(Role, Seq<u8>)>::empty(),
            r.fail_at is None,
    {
        let r = RecordingTransport { writes: Vec::new(), fail_at: None };
        proof {
            assert(r.log() =~= Seq::<(Role, Seq<u8>)>::empty());
        }
        r
    }

    /// A transport that refuses write number `index` (counting from zero)
    /// and accepts every other.
    pub fn failing_at(index: usize) -> (r: RecordingTransport)
        ensures
            r.log() == Seq::<(Role, Seq<u8>)>::empty(),
            r.fail_at == Some(index),
    {
        let r = RecordingTransport { writes: Vec::new(), fail_at: Some(index) };
        proof {
            assert(r.log() =~= Seq::<(Role, Seq<u8>)>::empty());
        }
        r
    }

    /// Accept or refuse one write, as `fail_at` directs.
    fn record(&mut self, role: Role, bytes: &[u8]) -> (r: Result<(), BusFault>)
        ensures
            r is Ok ==> final(self).log() == old(self).log().push((role, bytes@)),
            r is Err ==> *final(self) == *old(self),
    {
        if let Some(k) = self.fail_at {
            if self.writes.len() == k {
                return Err(BusFault);
            }
        }
        self.writes.push(WriteRecord { role, bytes: slice_to_vec(bytes) });
        proof {
            assert(self.log() =~= old(self).log().push((role, bytes@)));
        }
        Ok(())
    }
}

impl Transport for RecordingTransport {
    type Error = BusFault;

    /// The recorded writes, as role and byte sequence.
    open spec fn log(&self) -> Seq<(Role, Seq<u8>)> {
        Seq::new(self.writes@.len(), |i: int| (self.writes@[i].role, self.writes@[i].bytes@))
    }

    fn write_commands(&mut self, bytes: &[u8]) -> (r: Result<(), BusFault>) {
        self.record(Role::Command, bytes)
    }

    fn write_data(&mut self, bytes: &[u8]) -> (r: Result<(), BusFault>) {
        self.record(Role::Data, bytes)
    }
}

/// Chunk sizing: a framing buffer of `cap` bytes (a positive multiple of
/// 8) holds the framed form of any chunk of at most `chunk_cap(cap)`
/// payload bytes, trailing filler included.
pub proof fn lemma_chunk_fits(cap: nat, n: nat)
    requires
        8 <= cap,
        cap % 8 == 0,
        n <= chunk_cap(cap),
    ensures
        framed_len(n) <= cap,
{
    if n > 0 {
        let q = cap as int / 8;
        lemma_fundamental_div_mod(cap as int * 8, 9);
        lemma_mul_inequality(n as int, (cap * 8 / 9) as int, 9);
        assert((n as int) * 9 == 9 * (n as int)) by (nonlinear_arith);
        assert(((cap * 8 / 9) as int) * 9 == 9 * ((cap * 8 / 9) as int)) by (nonlinear_arith);
        assert(9 * (n as int) <= 8 * cap);
        lemma_fundamental_div_mod(cap as int, 8);
        assert(8 * (cap as int) + 63 == q * 64 + 63) by (nonlinear_arith)
            requires
                cap as int == 8 * q,
        ;
        lemma_fundamental_div_mod_converse_div(8 * (cap as int) + 63, 64, q, 63);
        lemma_div_is_ordered(9 * (n as int) + 63, 8 * (cap as int) + 63, 64);
    }
}

/// Chunking covers the payload exactly: chunk `i` holds the bytes from
/// `i * c` on, every chunk but the last is full, the last is non-empty,
/// and one chunk suffices exactly when the payload fits in one.
pub proof fn lemma_chunks_cover(bytes: Seq<u8>, c: nat)
    requires
        1 <= c,
    ensures
        chunk_count(bytes.len(), c) == 0 <==> bytes.len() == 0,
        chunk_count(bytes.len(), c) == 1 <==> 0 < bytes.len() <= c,
        chunk_count(bytes.len(), c) > 1 <==> bytes.len() > c,
        bytes.len() > 0 ==> (chunk_count(bytes.len(), c) - 1) * c < bytes.len() <= chunk_count(
            bytes.len(),
            c,
        ) * c,
        forall|i: int|
            0 <= i < chunk_count(bytes.len(), c) ==> 1 <= #[trigger] spec_chunk(
                bytes,
                c,
                i,
            ).len() <= c,
        forall|i: int|
            0 <= i < chunk_count(bytes.len(), c) - 1 ==> #[trigger] spec_chunk(bytes, c, i).len()
                == c,
        forall|i: int, p: int|
            0 <= i < chunk_count(bytes.len(), c) && 0 <= p < spec_chunk(bytes, c, i).len()
                ==> #[trigger] spec_chunk(bytes, c, i)[p] == bytes[i * c + p],
{
    let n = bytes.len() as int;
    let ci = c as int;
    let m = chunk_count(bytes.len(), c) as int;
    lemma_fundamental_div_mod(n + ci - 1, ci);
    let r = (n + ci - 1) % ci;
    assert(n == (m - 1) * ci + (r + 1)) by (nonlinear_arith)
        requires
            n + ci - 1 == ci * m + r,
    ;
    if n == 0 {
        assert(m == 0) by (nonlinear_arith)
            requires
                0 == (m - 1) * ci + (r + 1),
                0 <= r < ci,
                m >= 0,
        ;
    } else {
        assert((m - 1) * ci < n <= m * ci) by (nonlinear_arith)
            requires
                n == (m - 1) * ci + (r + 1),
                0 <= r < ci,
        ;
        if m >= 2 {
            lemma_mul_inequality(1, m - 1, ci);
            assert(n > ci);
        }
    }
    assert forall|i: int| 0 <= i < m implies 1 <= #[trigger] spec_chunk(bytes, c, i).len()
        <= c by {
        lemma_mul_inequality(i, m - 1, ci);
        lemma_mul_inequality(i + 1, m, ci);
        assert((i + 1) * ci == i * ci + ci) by (nonlinear_arith);
        assert((m - 1) * ci == m * ci - ci) by (nonlinear_arith);
    }
    assert forall|i: int| 0 <= i < m - 1 implies #[trigger] spec_chunk(bytes, c, i).len()
        == c by {
        lemma_mul_inequality(i, m - 1, ci);
        lemma_mul_inequality(i + 1, m - 1, ci);
        assert((i + 1) * ci == i * ci + ci) by (nonlinear_arith);
    }
    assert forall|i: int, p: int|
        0 <= i < m && 0 <= p < spec_chunk(bytes, c, i).len() implies #[trigger] spec_chunk(
        bytes,
        c,
        i,
    )[p] == bytes[i * c + p] by {
        lemma_mul_inequality(i, m - 1, ci);
        assert((m - 1) * ci == m * ci - ci) by (nonlinear_arith);
        assert(0 <= i * ci) by (nonlinear_arith)
            requires
                0 <= i,
                0 < ci,
        ;
        assert((i + 1) * ci == i * ci + ci) by (nonlinear_arith);
    }
}

/// A wrapper around a transport that frames every transfer with role bits,
/// shifting payload bits across byte boundaries as needed, and splits long
/// transfers into chunks sized to its buffer.
///
/// The physical buffer is created once, owned by the wrapper, and reused
/// in place by every transfer; its capacity fixes the chunk size.
pub struct CommandDataShifter<SPI> {
    /// The underlying transport.
    pub spi: SPI,
    /// The physical framing buffer.
    pub buffer: Vec<u8>,
}

impl<SPI> CommandDataShifter<SPI> {
    /// The buffer capacity is a positive whole number of 8-byte groups,
    /// small enough for the chunk arithmetic to stay within `usize`.
    pub open spec fn wf(&self) -> bool {
        &&& 8 <= self.buffer@.len()
        &&& self.buffer@.len() % 8 == 0
        &&& self.buffer@.len() <= (usize::MAX - 63) / 8
    }

    /// The capacity of the framing buffer, in bytes.
    pub open spec fn capacity(&self) -> nat {
        self.buffer@.len()
    }

    /// Wrap `spi`, framing through a fresh zeroed buffer of `capacity`
    /// bytes.
    pub fn new(spi: SPI, capacity: usize) -> (r: CommandDataShifter<SPI>)
        requires
            8 <= capacity,
            capacity % 8 == 0,
            capacity <= (usize::MAX - 63) / 8,
        ensures
            r.wf(),
            r.capacity() == capacity,
            r.spi == spi,
    {
        let mut buffer: Vec<u8> = Vec::new();
        let mut i: usize = 0;
        while i < capacity
            invariant
                i <= capacity,
                buffer@.len() == i,
            decreases capacity - i,
        {
            buffer.push(0);
            i += 1;
        }
        CommandDataShifter { spi, buffer }
    }

    /// Release the transport.
    pub fn release(self) -> (r: SPI)
        ensures
            r == self.spi,
    {
        self.spi
    }

    /// Raw payload bytes per chunk: framing emits 9 bits for every 8
    /// payload bits, so a chunk may hold 8/9 of the buffer.
    pub fn chunk_capacity(&self) -> (c: usize)
        requires
            self.wf(),
        ensures
            c == chunk_cap(self.capacity()),
            1 <= c,
    {
        chunk_size(self.buffer.len())
    }
}

/// Raw payload bytes per chunk for a framing buffer of `capacity` bytes:
/// framing emits 9 bits for every 8 payload bits, so a chunk may hold 8/9
/// of the buffer.
pub fn chunk_size(capacity: usize) -> (c: usize)
    requires
        8 <= capacity,
        capacity <= (usize::MAX - 63) / 8,
    ensures
        c == chunk_cap(capacity as nat),
        1 <= c,
{
    proof {
        lemma_fundamental_div_mod(usize::MAX - 63, 8);
        lemma_div_is_ordered(64, capacity as int * 8, 9);
    }
    capacity * 8 / 9
}

/// A well-formed buffer capacity gives a chunk size that is positive and
/// small enough for the codec's own length arithmetic.
proof fn lemma_cap_bounds(cap: nat)
    requires
        8 <= cap,
        cap <= (usize::MAX - 63) / 8,
    ensures
        1 <= chunk_cap(cap),
        chunk_cap(cap) <= max_payload_len(),
{
    lemma_fundamental_div_mod(usize::MAX - 63, 8);
    lemma_mul_inequality(cap as int, (usize::MAX - 63) / 8, 8);
    assert(8 * ((usize::MAX - 63) / 8) == ((usize::MAX - 63) / 8) * 8) by (nonlinear_arith);
    assert(cap as int * 8 == cap * 8) by (nonlinear_arith);
    lemma_div_is_ordered(cap as int * 8, usize::MAX - 63, 9);
    lemma_div_is_ordered(64, cap as int * 8, 9);
}

impl<SPI: Transport> CommandDataShifter<SPI> {
    /// Split `bytes` into chunks that fit the framing buffer, frame each,
    /// and issue one transport write per chunk, strictly in input order.
    ///
    /// The first chunk is framed under the declared `role`, every later
    /// chunk as data, because the device distinguishes command from data
    /// only at the first byte of the whole transfer. The first transport
    /// error aborts the remaining chunks and is returned unchanged: on
    /// error the transport has accepted exactly the writes of some proper
    /// prefix of the chunks.
    pub fn send(&mut self, role: Role, bytes: &[u8]) -> (r: Result<(), SPI::Error>)
        requires
            old(self).wf(),
        ensures
            final(self).wf(),
            final(self).capacity() == old(self).capacity(),
            ({
                let ws = spec_writes(role, bytes@, chunk_cap(old(self).capacity()));
                match r {
                    Ok(_) => final(self).spi.log() == old(self).spi.log() + ws,
                    Err(_) => exists|k: int|
                        0 <= k < ws.len() && final(self).spi.log() == old(self).spi.log()
                            + ws.take(k),
                }
            }),
    {
        let c: usize = self.chunk_capacity();
        let n: usize = bytes.len();
        let ghost cc = chunk_cap(old(self).capacity());
        let ghost ws = spec_writes(role, bytes@, cc);
        let ghost m = chunk_count(bytes@.len(), cc) as int;
        proof {
            lemma_cap_bounds(old(self).capacity());
            lemma_chunks_cover(bytes@, cc);
            if m > 0 {
                assert(m <= n as int) by (nonlinear_arith)
                    requires
                        (m - 1) * (cc as int) < n as int,
                        cc >= 1,
                        m >= 1,
                ;
            }
            assert(self.spi.log() =~= old(self).spi.log() + ws.take(0));
        }
        let mut pos: usize = 0;
        let mut i: usize = 0;
        while pos < n
            invariant
                self.wf(),
                self.capacity() == old(self).capacity(),
                i as int <= m,
                pos as int == if (i as int) * (cc as int) <= n as int {
                    (i as int) * (cc as int)
                } else {
                    n as int
                },
                self.spi.log() == old(self).spi.log() + ws.take(i as int),
            decreases n - pos,
        {
            proof {
                if i as int >= m {
                    lemma_mul_inequality(m, i as int, cc as int);
                }
                assert((i as int) < m);
                lemma_mul_inequality(i as int, m - 1, cc as int);
                assert((i as int + 1) * (cc as int) == (i as int) * (cc as int)
                    + cc as int) by (nonlinear_arith);
            }
            let end: usize = if n - pos > c {
                pos + c
            } else {
                n
            };
            let chunk: &[u8] = slice_subrange(bytes, pos, end);
            proof {
                assert(chunk@ =~= spec_chunk(bytes@, cc, i as int));
                lemma_chunk_fits(old(self).capacity(), chunk@.len() as nat);
            }
            let crole: Role = if i == 0 {
                role
            } else {
                Role::Data
            };
            let len: usize = encode(crole, chunk, &mut self.buffer);
            let framed: &[u8] = slice_subrange(self.buffer.as_slice(), 0, len);
            proof {
                assert(framed@ =~= frame_of(chunk_role(role, i as int), chunk@));
            }
            let res: Result<(), SPI::Error> = match crole {
                Role::Command => self.spi.write_commands(framed),
                Role::Data => self.spi.write_data(framed),
            };
            match res {
                Ok(_) => {
                    proof {
                        assert(ws[i as int] == (
                            chunk_role(role, i as int),
                            frame_of(
                                chunk_role(role, i as int),
                                spec_chunk(bytes@, cc, i as int),
                            ),
                        ));
                        assert(ws.take(i as int + 1) =~= ws.take(i as int).push(ws[i as int]));
                        assert((old(self).spi.log() + ws.take(i as int)).push(ws[i as int]) =~= old(
                            self,
                        ).spi.log() + ws.take(i as int + 1));
                    }
                    pos = end;
                    i += 1;
                },
                Err(e) => {
                    proof {
                        assert(0 <= i as int && (i as int) < ws.len() && self.spi.log() == old(self).spi.log()
                            + ws.take(i as int));
                    }
                    return Err(e);
                },
            }
        }
        proof {
            if (i as int) < m {
                lemma_mul_inequality(i as int, m - 1, cc as int);
                assert(false);
            }
            assert(ws.take(m) =~= ws);
        }
        Ok(())
    }

    /// Send a commands transfer: the first byte goes out under the command
    /// role, everything after it as data.
    pub fn send_commands(&mut self, bytes: &[u8]) -> (r: Result<(), SPI::Error>)
        requires
            old(self).wf(),
        ensures
            final(self).wf(),
            final(self).capacity() == old(self).capacity(),
            ({
                let ws = spec_writes(Role::Command, bytes@, chunk_cap(old(self).capacity()));
                match r {
                    Ok(_) => final(self).spi.log() == old(self).spi.log() + ws,
                    Err(_) => exists|k: int|
                        0 <= k < ws.len() && final(self).spi.log() == old(self).spi.log()
                            + ws.take(k),
                }
            }),
    {
        self.send(Role::Command, bytes)
    }

    /// Send a data transfer: every byte goes out under the data role.
    pub fn send_data(&mut self, bytes: &[u8]) -> (r: Result<(), SPI::Error>)
        requires
            old(self).wf(),
        ensures
            final(self).wf(),
            final(self).capacity() == old(self).capacity(),
            ({
                let ws = spec_writes(Role::Data, bytes@, chunk_cap(old(self).capacity()));
                match r {
                    Ok(_) => final(self).spi.log() == old(self).spi.log() + ws,
                    Err(_) => exists|k: int|
                        0 <= k < ws.len() && final(self).spi.log() == old(self).spi.log()
                            + ws.take(k),
                }
            }),
    {
        self.send(Role::Data, bytes)
    }
}

} // verus!
