//! The command/data bit-framing codec.
//!
//! A logical transfer is a sequence of 9-bit units: one role bit (0 for a
//! command byte, 1 for a data byte) followed by the 8 payload bits. The
//! codec packs this stream into 8-bit physical bytes, most significant bit
//! first, and pads the tail with no-op filler units (role 1, payload 0) so
//! that the output is always a whole number of 8-byte groups.

use crate::bits::bit_val;
use crate::bits::bits_to_int;
use crate::bits::byte_bit;
use crate::bits::lemma_bits_to_int_bound;
use crate::bits::lemma_value_byte_bits;
use crate::bits::byte_bits;
use crate::bits::lemma_byte_bits_value;
use crate::bits::lemma_zero_bits;
use vstd::arithmetic::div_mod::lemma_div_is_ordered;
use vstd::arithmetic::div_mod::lemma_fundamental_div_mod;
use vstd::arithmetic::div_mod::lemma_fundamental_div_mod_converse_div;
use vstd::arithmetic::div_mod::lemma_fundamental_div_mod_converse_mod;
use vstd::arithmetic::power2::lemma2_to64;
use vstd::arithmetic::power2::lemma_pow2_strictly_increases;
use vstd::prelude::*;

verus! {

/// The role of a logical unit: a command byte or a data byte.
#[derive(Debug, Clone, Copy, PartialEq, Eq, Structural)]
pub enum Role {
    /// A command byte; framed with a 0 role bit.
    Command,
    /// A data byte; framed with a 1 role bit.
    Data,
}

/// The role bit of unit `i` in a transfer whose declared role is `role`:
/// only the very first unit carries the declared role, every later unit
/// (and every filler unit) is framed as data.
pub open spec fn unit_is_data(role: Role, i: int) -> bool {
    i > 0 || role == Role::Data
}

/// The role a chunk of a split transfer is framed under: the first chunk
/// carries the transfer's declared role, every later chunk is data.
pub open spec fn chunk_role(first: Role, i: int) -> Role {
    if i == 0 {
        first
    } else {
        Role::Data
    }
}

/// Bit `k` of the framed stream for payload `bytes` under `role`: the 9-bit
/// units of the payload, followed by filler units (role 1, payload 0).
pub open spec fn frame_bit(role: Role, bytes: Seq<u8>, k: int) -> bool
    recommends
        0 <= k,
{
    let n = bytes.len() as int;
    if k < 9 * n {
        if k % 9 == 0 {
            unit_is_data(role, k / 9)
        } else {
            byte_bit(bytes[k / 9], k % 9 - 1)
        }
    } else {
        (k - 9 * n) % 9 == 0
    }
}

/// The 8 stream bits that make up physical byte `j`.
pub open spec fn frame_bits8(role: Role, bytes: Seq<u8>, j: int) -> Seq<bool> {
    Seq::new(8, |t: int| frame_bit(role, bytes, 8 * j + t))
}

/// Physical byte `j` of the framed stream.
pub open spec fn frame_byte(role: Role, bytes: Seq<u8>, j: int) -> u8 {
    bits_to_int(frame_bits8(role, bytes, j)) as u8
}

/// Number of physical bytes the codec produces for `n` payload bytes: zero
/// for an empty input, otherwise `9 * n` bits rounded up to a whole number
/// of 64-bit groups.
pub open spec fn framed_len(n: nat) -> nat {
    if n == 0 {
        0
    } else {
        8 * ((9 * n + 63) / 64)
    }
}

/// The longest payload whose framed length can be computed without
/// overflowing a `usize`.
pub open spec fn max_payload_len() -> int {
    (usize::MAX - 63) / 9
}

/// The bits of physical byte `j` are stream bits `8 * j .. 8 * j + 8`.
pub proof fn lemma_frame_byte_bits(role: Role, bytes: Seq<u8>, j: int)
    ensures
        forall|t: int|
            0 <= t < 8 ==> byte_bit(frame_byte(role, bytes, j), t) == frame_bit(
                role,
                bytes,
                8 * j + t,
            ),
{
    let bs = frame_bits8(role, bytes, j);
    lemma_bits_to_int_bound(bs);
    lemma2_to64();
    lemma_value_byte_bits(bs, frame_byte(role, bytes, j));
}

/// Payloads this long are within `max_payload_len`, so the stream length
/// `9 * n` and the framed length both fit in a `usize`.
proof fn lemma_stream_fits(n: int)
    requires
        0 <= n <= max_payload_len(),
    ensures
        9 * n + 63 <= usize::MAX,
        8 * ((9 * n + 63) / 64) <= usize::MAX,
        64 * ((9 * n + 63) / 64) <= usize::MAX,
{
    lemma_fundamental_div_mod(usize::MAX - 63, 9);
    lemma_fundamental_div_mod(9 * n + 63, 64);
}

/// The `t`-th partial value of physical byte `j`, as built by the encoder.
proof fn lemma_partial_byte_step(role: Role, bytes: Seq<u8>, j: int, t: int)
    requires
        0 <= t < 8,
    ensures
        bits_to_int(frame_bits8(role, bytes, j).take(t + 1)) == 2 * bits_to_int(
            frame_bits8(role, bytes, j).take(t),
        ) + bit_val(frame_bit(role, bytes, 8 * j + t)),
{
    let bs = frame_bits8(role, bytes, j);
    assert(bs.take(t + 1).drop_last() =~= bs.take(t));
    assert(bs.take(t + 1).last() == frame_bit(role, bytes, 8 * j + t));
}

/// One bit of the framed stream, computed from the payload.
fn frame_bit_at(role: Role, bytes: &[u8], k: usize) -> (r: bool)
    requires
        bytes@.len() <= max_payload_len(),
    ensures
        r == frame_bit(role, bytes@, k as int),
{
    let n: usize = bytes.len();
    proof {
        lemma_stream_fits(n as int);
    }
    if k < 9 * n {
        let i: usize = k / 9;
        let o: usize = k % 9;
        proof {
            assert(i < n) by (nonlinear_arith)
                requires
                    (k as int) < 9 * (n as int),
                    i == k as int / 9,
                    o == k as int % 9,
            ;
        }
        if o == 0 {
            if i > 0 {
                true
            } else {
                matches!(role, Role::Data)
            }
        } else {
            let sh: u8 = (8 - o) as u8;
            ((bytes[i] >> sh) & 1) == 1
        }
    } else {
        (k - 9 * n) % 9 == 0
    }
}

/// Frame `bytes` under `role` into the start of `out`, returning the number
/// of physical bytes produced.
///
/// `out` is wholly zero-filled first, so no bits of an earlier encode
/// survive; the framed stream then occupies `out[0 .. len]`, and `len` is a
/// multiple of 8 (zero exactly when the input is empty). The caller must
/// supply a buffer large enough for the framed input; `encode_checked`
/// tests that bound instead of demanding it.
pub fn encode(role: Role, bytes: &[u8], out: &mut Vec<u8>) -> (len: usize)
    requires
        bytes@.len() <= max_payload_len(),
        framed_len(bytes@.len() as nat) <= old(out)@.len(),
    ensures
        final(out)@.len() == old(out)@.len(),
        len == framed_len(bytes@.len() as nat),
        forall|j: int| 0 <= j < len ==> final(out)@[j] == frame_byte(role, bytes@, j),
        forall|j: int| len <= j < final(out)@.len() ==> final(out)@[j] == 0,
{
    let n: usize = bytes.len();
    proof {
        lemma_stream_fits(n as int);
    }
    let mut i: usize = 0;
    while i < out.len()
        invariant
            out@.len() == old(out)@.len(),
            i <= out@.len(),
            forall|q: int| 0 <= q < i ==> out@[q] == 0,
        decreases out@.len() - i,
    {
        out.set(i, 0);
        i += 1;
    }
    if n == 0 {
        return 0;
    }
    let total: usize = 8 * ((9 * n + 63) / 64);
    let mut j: usize = 0;
    while j < total
        invariant
            out@.len() == old(out)@.len(),
            j <= total,
            forall|q: int| 0 <= q < j ==> out@[q] == frame_byte(role, bytes@, q),
            forall|q: int| j <= q < out@.len() ==> out@[q] == 0,
        decreases total - j,
    {
        let ghost bs = frame_bits8(role, bytes@, j as int);
        let mut b: u8 = 0;
        let mut t: usize = 0;
        assert(bs.take(0) =~= Seq::<bool>::empty());
        while t < 8
            invariant
                t <= 8,
                j < total,
                b as int == bits_to_int(bs.take(t as int)),
            decreases 8 - t,
        {
            proof {
                lemma_bits_to_int_bound(bs.take(t as int));
                if (t as int) < 7 {
                    lemma_pow2_strictly_increases(t as nat, 7);
                }
                lemma2_to64();
                lemma_partial_byte_step(role, bytes@, j as int, t as int);
            }
            let k: usize = 8 * j + t;
            let bit: bool = frame_bit_at(role, bytes, k);
            b = 2 * b + (if bit {
                1
            } else {
                0
            });
            t += 1;
        }
        proof {
            assert(bs.take(8) =~= bs);
            lemma_bits_to_int_bound(bs);
            lemma2_to64();
            assert(b == frame_byte(role, bytes@, j as int));
        }
        out.set(j, b);
        j += 1;
    }
    total
}

/// Error returned when an output buffer cannot hold the framed input.
#[derive(Debug, Clone, Copy, PartialEq, Eq, Structural)]
pub struct CapacityError;

/// Frame `bytes` under `role` into `out` after checking that the framed
/// input fits, so that an undersized buffer is reported rather than
/// demanded away.
pub fn encode_checked(role: Role, bytes: &[u8], out: &mut Vec<u8>) -> (r: Result<
    usize,
    CapacityError,
>)
    ensures
        final(out)@.len() == old(out)@.len(),
        r is Ok <==> bytes@.len() <= max_payload_len() && framed_len(bytes@.len() as nat) <= old(
            out,
        )@.len(),
        r matches Ok(len) ==> {
            &&& len == framed_len(bytes@.len() as nat)
            &&& forall|j: int| 0 <= j < len ==> final(out)@[j] == frame_byte(role, bytes@, j)
            &&& forall|j: int| len <= j < final(out)@.len() ==> final(out)@[j] == 0
        },
        r is Err ==> final(out)@ == old(out)@,
{
    let n: usize = bytes.len();
    if n > (usize::MAX - 63) / 9 {
        return Err(CapacityError);
    }
    proof {
        lemma_stream_fits(n as int);
    }
    let required: usize = if n == 0 {
        0
    } else {
        8 * ((9 * n + 63) / 64)
    };
    if required > out.len() {
        return Err(CapacityError);
    }
    Ok(encode(role, bytes, out))
}

/// Frame command bytes: the first byte carries role bit 0, the rest role
/// bit 1.
pub fn format_command(bytes: &[u8], buffer: &mut Vec<u8>) -> (len: usize)
    requires
        bytes@.len() <= max_payload_len(),
        framed_len(bytes@.len() as nat) <= old(buffer)@.len(),
    ensures
        final(buffer)@.len() == old(buffer)@.len(),
        len == framed_len(bytes@.len() as nat),
        forall|j: int| 0 <= j < len ==> final(buffer)@[j] == frame_byte(Role::Command, bytes@, j),
        forall|j: int| len <= j < final(buffer)@.len() ==> final(buffer)@[j] == 0,
{
    encode(Role::Command, bytes, buffer)
}

/// Frame data bytes: every byte carries role bit 1.
pub fn format_data(bytes: &[u8], buffer: &mut Vec<u8>) -> (len: usize)
    requires
        bytes@.len() <= max_payload_len(),
        framed_len(bytes@.len() as nat) <= old(buffer)@.len(),
    ensures
        final(buffer)@.len() == old(buffer)@.len(),
        len == framed_len(bytes@.len() as nat),
        forall|j: int| 0 <= j < len ==> final(buffer)@[j] == frame_byte(Role::Data, bytes@, j),
        forall|j: int| len <= j < final(buffer)@.len() ==> final(buffer)@[j] == 0,
{
    encode(Role::Data, bytes, buffer)
}

/// Bit `k` of a physical byte sequence, most significant bit first.
pub open spec fn stream_bit(out: Seq<u8>, k: int) -> bool
    recommends
        0 <= k < 8 * out.len(),
{
    byte_bit(out[k / 8], k % 8)
}

/// The number of complete 9-bit units held by `len` physical bytes.
pub open spec fn unit_count(len: nat) -> nat {
    8 * len / 9
}

/// The payload byte of unit `i`, read back from the physical stream by
/// stripping the unit's leading role bit and reassembling the 8 bits that
/// follow it.
pub open spec fn decoded_payload(out: Seq<u8>, i: int) -> int {
    bits_to_int(Seq::new(8, |u: int| stream_bit(out, 9 * i + 1 + u)))
}

/// The role bit of unit `i`, read back from the physical stream.
pub open spec fn decoded_unit_is_data(out: Seq<u8>, i: int) -> bool {
    stream_bit(out, 9 * i)
}

/// Every bit of an encoded output equals the corresponding stream bit.
proof fn lemma_output_stream(role: Role, bytes: Seq<u8>, out: Seq<u8>)
    requires
        out.len() == framed_len(bytes.len()),
        forall|j: int| 0 <= j < out.len() ==> out[j] == frame_byte(role, bytes, j),
    ensures
        forall|k: int| 0 <= k < 8 * out.len() ==> stream_bit(out, k) == frame_bit(role, bytes, k),
{
    assert forall|k: int| 0 <= k < 8 * out.len() implies stream_bit(out, k) == frame_bit(
        role,
        bytes,
        k,
    ) by {
        lemma_fundamental_div_mod(k, 8);
        assert(0 <= k / 8 < out.len()) by (nonlinear_arith)
            requires
                0 <= k < 8 * out.len(),
        ;
        lemma_frame_byte_bits(role, bytes, k / 8);
    }
}

/// Round trip: stripping the leading role bit from each 9-bit unit of the
/// framed output and reassembling the remaining bits reproduces the
/// original payload bytes exactly, followed only by zero-valued filler
/// payloads; and every unit's role bit is the one the framing assigned it
/// (the declared role first, data everywhere after, fillers included).
pub proof fn lemma_round_trip(role: Role, bytes: Seq<u8>, out: Seq<u8>)
    requires
        out.len() == framed_len(bytes.len()),
        forall|j: int| 0 <= j < out.len() ==> out[j] == frame_byte(role, bytes, j),
    ensures
        bytes.len() <= unit_count(out.len()),
        forall|i: int| 0 <= i < bytes.len() ==> decoded_payload(out, i) == bytes[i],
        forall|i: int| bytes.len() <= i < unit_count(out.len()) ==> decoded_payload(out, i) == 0,
        forall|i: int|
            0 <= i < unit_count(out.len()) ==> decoded_unit_is_data(out, i) == unit_is_data(
                role,
                i,
            ),
{
    let n = bytes.len() as int;
    if n == 0 {
        return ;
    }
    let ln = out.len() as int;
    lemma_output_stream(role, bytes, out);
    lemma_fundamental_div_mod(9 * n + 63, 64);
    assert(9 * n <= 8 * ln);
    assert(n <= unit_count(out.len()) && 9 * (unit_count(out.len()) as int) <= 8 * ln) by {
        lemma_div_is_ordered(9 * n, 8 * ln, 9);
        assert(9 * n / 9 == n && 9 * ((8 * ln) / 9) <= 8 * ln) by (nonlinear_arith);
    }
    assert forall|i: int| 0 <= i < unit_count(out.len()) implies decoded_unit_is_data(out, i)
        == unit_is_data(role, i) by {
        assert(9 * i + 9 <= 9 * (unit_count(out.len()) as int)) by (nonlinear_arith)
            requires
                i < unit_count(out.len()) as int,
        ;
        if i < n {
            lemma_fundamental_div_mod_converse_div(9 * i, 9, i, 0);
            lemma_fundamental_div_mod_converse_mod(9 * i, 9, i, 0);
        } else {
            lemma_fundamental_div_mod_converse_mod(9 * i - 9 * n, 9, i - n, 0);
        }
    }
    assert forall|i: int| 0 <= i < unit_count(out.len()) implies (i < n ==> decoded_payload(out, i)
        == bytes[i]) && (i >= n ==> decoded_payload(out, i) == 0) by {
        assert(9 * i + 9 <= 9 * (unit_count(out.len()) as int)) by (nonlinear_arith)
            requires
                i < unit_count(out.len()) as int,
        ;
        let dec = Seq::new(8, |u: int| stream_bit(out, 9 * i + 1 + u));
        if i < n {
            assert forall|u: int| 0 <= u < 8 implies dec[u] == byte_bit(bytes[i], u) by {
                lemma_fundamental_div_mod_converse_div(9 * i + 1 + u, 9, i, 1 + u);
                lemma_fundamental_div_mod_converse_mod(9 * i + 1 + u, 9, i, 1 + u);
                assert(9 * i + 1 + u < 9 * n) by (nonlinear_arith)
                    requires
                        i < n,
                        u < 8,
                ;
            }
            assert(dec =~= byte_bits(bytes[i]));
            lemma_byte_bits_value(bytes[i]);
        } else {
            assert forall|u: int| 0 <= u < 8 implies !dec[u] by {
                lemma_fundamental_div_mod_converse_mod(
                    (9 * i + 1 + u) - 9 * n,
                    9,
                    i - n,
                    1 + u,
                );
            }
            lemma_zero_bits(dec);
        }
    }
}

/// Alignment: the framed length is always a whole number of 8-byte groups,
/// positive exactly when the input is non-empty.
pub proof fn lemma_alignment(n: nat)
    ensures
        framed_len(n) % 8 == 0,
        n > 0 ==> framed_len(n) >= 8,
        n == 0 ==> framed_len(n) == 0,
{
    if n > 0 {
        assert((9 * n + 63) / 64 >= 1 && 8 * ((9 * n + 63) / 64) % 8 == 0) by (nonlinear_arith)
            requires
                n >= 1,
        ;
    }
}

/// The top bit of physical byte 0 is clear exactly when the declared role
/// is `Command`.
pub proof fn lemma_leading_role_bit(role: Role, bytes: Seq<u8>)
    requires
        bytes.len() > 0,
    ensures
        frame_byte(role, bytes, 0) & 0x80 == 0 <==> role == Role::Command,
{
    lemma_frame_byte_bits(role, bytes, 0);
    let fb = frame_byte(role, bytes, 0);
    assert(frame_bit(role, bytes, 0) == (role == Role::Data));
    assert(byte_bit(fb, 0) == ((fb >> 7u8) & 1 == 1));
    assert(fb & 0x80 == 0 <==> !((fb >> 7u8) & 1 == 1)) by (bit_vector);
    assert(role == Role::Command || role == Role::Data);
}

} // verus!
