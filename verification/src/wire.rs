use vstd::prelude::*;

verus! {

/// Why a decode failed. A decode error is local to the current packet: the
/// functions here consume nothing on failure, so no partial mutation is ever
/// visible to the caller.
#[derive(Clone, Copy, Debug, PartialEq, Eq, Structural)]
pub enum DecodeError {
    /// A primitive read ran out of bytes.
    UnexpectedEnd,
    /// A variable-length integer exceeded the maximum encodable width
    /// (5 bytes for a 32-bit value).
    InvalidVarInt,
    /// A length-prefixed string declared a length above the field's
    /// configured maximum.
    StringTooLong,
    /// The opcode has no decoder for the connection's direction and
    /// negotiated version: the dispatcher's distinguishable "no decoder
    /// found" outcome.
    UnknownOpcode,
}

/// The LEB128-style encoding of `v`: 7 payload bits per byte, lowest group
/// first, continuation flag in the top bit; at most 5 bytes for 32 bits.
pub open spec fn spec_varint(v: u32) -> Seq<u8>
    decreases v,
{
    if v < 0x80 {
        seq![v as u8]
    } else {
        seq![(v % 0x80 + 0x80) as u8] + spec_varint(v / 0x80)
    }
}

/// Largest value whose encoding fits when `k` bytes of width budget remain
/// out of the 5 a 32-bit value may occupy.
pub open spec fn spec_varint_bound(k: nat) -> int {
    if k == 1 {
        0x10
    } else if k == 2 {
        0x800
    } else if k == 3 {
        0x4_0000
    } else if k == 4 {
        0x200_0000
    } else {
        0x1_0000_0000
    }
}

/// Decodes a variable-length integer from the head of `s` with `k` bytes of
/// width budget left: the decoded value and the bytes consumed, or `None` on
/// a truncated buffer, an over-long encoding, or a fifth byte carrying bits
/// beyond the 32nd.
pub open spec fn spec_varint_dec(s: Seq<u8>, k: nat) -> Option<(int, nat)>
    decreases k,
{
    if k == 0 || s.len() == 0 {
        None
    } else if s[0] < 0x80 {
        if k == 1 && s[0] >= 0x10 {
            None
        } else {
            Some((s[0] as int, 1nat))
        }
    } else if k == 1 {
        None
    } else {
        match spec_varint_dec(s.skip(1), (k - 1) as nat) {
            None => None,
            Some((v, n)) => Some((v * 0x80 + (s[0] - 0x80), (n + 1) as nat)),
        }
    }
}

/// A decoded variable-length integer is below the width budget's bound.
pub proof fn lemma_varint_dec_bound(s: Seq<u8>, k: nat)
    requires
        1 <= k <= 5,
        spec_varint_dec(s, k) is Some,
    ensures
        ({
            let t = spec_varint_dec(s, k)->0;
            0 <= t.0 < spec_varint_bound(k) && 1 <= t.1 <= s.len()
        }),
    decreases k,
{
    if s[0] < 0x80 {
    } else {
        lemma_varint_dec_bound(s.skip(1), (k - 1) as nat);
    }
}

/// Round trip: decoding an encoding (followed by anything) yields the value
/// back and consumes exactly the encoding.
pub proof fn lemma_varint_roundtrip(v: u32, rest: Seq<u8>, k: nat)
    requires
        1 <= k <= 5,
        (v as int) < spec_varint_bound(k),
    ensures
        1 <= spec_varint(v).len() <= k,
        spec_varint_dec(spec_varint(v) + rest, k) == Some((v as int, spec_varint(v).len())),
    decreases k,
{
    let s = spec_varint(v) + rest;
    if v < 0x80 {
        assert(s[0] == v as u8);
    } else {
        assert(k >= 2);
        assert(s[0] == (v % 0x80 + 0x80) as u8);
        assert(((v / 0x80) as int) < spec_varint_bound((k - 1) as nat));
        lemma_varint_roundtrip(v / 0x80, rest, (k - 1) as nat);
        assert(s.skip(1) =~= spec_varint(v / 0x80) + rest);
        assert((v / 0x80) * 0x80 + (v % 0x80) == v as int);
    }
}

/// Appends the variable-length encoding of `v`.
fn write_varint_u32(out: &mut Vec<u8>, v: u32)
    ensures
        final(out)@ == old(out)@ + spec_varint(v),
    decreases v,
{
    if v < 0x80 {
        out.push(v as u8);
        proof {
            assert(out@ =~= old(out)@ + spec_varint(v));
        }
    } else {
        out.push((v % 0x80 + 0x80) as u8);
        write_varint_u32(out, v / 0x80);
        proof {
            assert(out@ =~= old(out)@ + spec_varint(v));
        }
    }
}

/// Appends the variable-length encoding of `v`, as its 32 untyped bits.
pub fn write_var_i32(out: &mut Vec<u8>, v: i32)
    ensures
        final(out)@ == old(out)@ + spec_varint(v as u32),
{
    write_varint_u32(out, v as u32);
}

/// Reads a variable-length integer at `pos` with `k` bytes of width budget.
fn read_varint_u32(buf: &Vec<u8>, pos: usize, k: u8) -> (r: Result<(u32, usize), DecodeError>)
    requires
        pos <= buf@.len(),
        1 <= k <= 5,
    ensures
        match r {
            Ok((v, n)) => {
                &&& spec_varint_dec(buf@.skip(pos as int), k as nat)
                    == Some((v as int, (n - pos) as nat))
                &&& pos < n <= buf@.len()
            },
            Err(e) => {
                &&& spec_varint_dec(buf@.skip(pos as int), k as nat) is None
                &&& (e == DecodeError::UnexpectedEnd || e == DecodeError::InvalidVarInt)
            },
        },
    decreases k,
{
    if pos >= buf.len() {
        return Err(DecodeError::UnexpectedEnd);
    }
    let b = buf[pos];
    if b < 0x80 {
        if k == 1 && b >= 0x10 {
            Err(DecodeError::InvalidVarInt)
        } else {
            Ok((b as u32, pos + 1))
        }
    } else if k == 1 {
        Err(DecodeError::InvalidVarInt)
    } else {
        let r = read_varint_u32(buf, pos + 1, k - 1);
        proof {
            assert(buf@.skip(pos as int).skip(1) =~= buf@.skip(pos as int + 1));
        }
        match r {
            Ok((v, n)) => {
                proof {
                    lemma_varint_dec_bound(buf@.skip(pos as int + 1), (k - 1) as nat);
                }
                Ok((v * 0x80 + (b - 0x80) as u32, n))
            },
            Err(e) => Err(e),
        }
    }
}

/// Reads a variable-length 32-bit integer at `pos`: the value, as its 32
/// untyped bits, and the position after it.
pub fn read_var_i32(buf: &Vec<u8>, pos: usize) -> (r: Result<(i32, usize), DecodeError>)
    requires
        pos <= buf@.len(),
    ensures
        match r {
            Ok((v, n)) => {
                &&& spec_varint_dec(buf@.skip(pos as int), 5)
                    == Some(((v as u32) as int, (n - pos) as nat))
                &&& pos < n <= buf@.len()
            },
            Err(e) => {
                &&& spec_varint_dec(buf@.skip(pos as int), 5) is None
                &&& (e == DecodeError::UnexpectedEnd || e == DecodeError::InvalidVarInt)
            },
        },
{
    match read_varint_u32(buf, pos, 5) {
        Ok((v, n)) => {
            let w = #[verifier::truncate] (v as i32);
            proof {
                assert((v as i32) as u32 == v) by (bit_vector);
            }
            Ok((w, n))
        },
        Err(e) => Err(e),
    }
}

/// The 32 bits of `v` reinterpreted as unsigned survive the round trip.
pub proof fn lemma_i32_bits(v: i32)
    by (bit_vector)
    ensures
        ((v as u32) as i32) == v,
{
}

/// The 64 bits of `v` reinterpreted as unsigned survive the round trip.
pub proof fn lemma_i64_bits(v: i64)
    by (bit_vector)
    ensures
        ((v as u64) as i64) == v,
{
}

/// The 16 bits of `v` reinterpreted as unsigned survive the round trip.
pub proof fn lemma_i16_bits(v: i16)
    by (bit_vector)
    ensures
        ((v as u16) as i16) == v,
{
}

/// The 8 bits of `v` reinterpreted as unsigned survive the round trip.
pub proof fn lemma_i8_bits(v: i8)
    by (bit_vector)
    ensures
        ((v as u8) as i8) == v,
{
}

/// The big-endian bytes of a 16-bit value.
pub open spec fn spec_u16_be(v: u16) -> Seq<u8> {
    seq![(v >> 8) as u8, v as u8]
}

/// A 16-bit value from its big-endian bytes.
pub open spec fn spec_u16_of(b0: u8, b1: u8) -> u16 {
    ((b0 as u16) << 8) | (b1 as u16)
}

pub proof fn lemma_u16_be_roundtrip(v: u16)
    by (bit_vector)
    ensures
        spec_u16_of((v >> 8) as u8, v as u8) == v,
{
}

/// The big-endian bytes of a 32-bit value.
pub open spec fn spec_u32_be(v: u32) -> Seq<u8> {
    seq![(v >> 24) as u8, (v >> 16) as u8, (v >> 8) as u8, v as u8]
}

/// A 32-bit value from its big-endian bytes.
pub open spec fn spec_u32_of(b0: u8, b1: u8, b2: u8, b3: u8) -> u32 {
    ((b0 as u32) << 24) | ((b1 as u32) << 16) | ((b2 as u32) << 8) | (b3 as u32)
}

pub proof fn lemma_u32_be_roundtrip(v: u32)
    by (bit_vector)
    ensures
        spec_u32_of((v >> 24) as u8, (v >> 16) as u8, (v >> 8) as u8, v as u8) == v,
{
}

/// The big-endian bytes of a 64-bit value.
pub open spec fn spec_u64_be(v: u64) -> Seq<u8> {
    seq![
        (v >> 56) as u8,
        (v >> 48) as u8,
        (v >> 40) as u8,
        (v >> 32) as u8,
        (v >> 24) as u8,
        (v >> 16) as u8,
        (v >> 8) as u8,
        v as u8,
    ]
}

/// A 64-bit value from its big-endian bytes.
pub open spec fn spec_u64_of(
    b0: u8,
    b1: u8,
    b2: u8,
    b3: u8,
    b4: u8,
    b5: u8,
    b6: u8,
    b7: u8,
) -> u64 {
    ((b0 as u64) << 56) | ((b1 as u64) << 48) | ((b2 as u64) << 40) | ((b3 as u64) << 32)
        | ((b4 as u64) << 24) | ((b5 as u64) << 16) | ((b6 as u64) << 8) | (b7 as u64)
}

pub proof fn lemma_u64_be_roundtrip(v: u64)
    by (bit_vector)
    ensures
        spec_u64_of(
            (v >> 56) as u8,
            (v >> 48) as u8,
            (v >> 40) as u8,
            (v >> 32) as u8,
            (v >> 24) as u8,
            (v >> 16) as u8,
            (v >> 8) as u8,
            v as u8,
        ) == v,
{
}

/// Appends the big-endian bytes of `v`.
pub fn write_u16_be(out: &mut Vec<u8>, v: u16)
    ensures
        final(out)@ == old(out)@ + spec_u16_be(v),
{
    out.push((v >> 8) as u8);
    out.push(v as u8);
    proof {
        assert(out@ =~= old(out)@ + spec_u16_be(v));
    }
}

/// Appends the big-endian bytes of `v`.
pub fn write_u32_be(out: &mut Vec<u8>, v: u32)
    ensures
        final(out)@ == old(out)@ + spec_u32_be(v),
{
    out.push((v >> 24) as u8);
    out.push((v >> 16) as u8);
    out.push((v >> 8) as u8);
    out.push(v as u8);
    proof {
        assert(out@ =~= old(out)@ + spec_u32_be(v));
    }
}

/// Appends the big-endian bytes of `v`.
pub fn write_u64_be(out: &mut Vec<u8>, v: u64)
    ensures
        final(out)@ == old(out)@ + spec_u64_be(v),
{
    out.push((v >> 56) as u8);
    out.push((v >> 48) as u8);
    out.push((v >> 40) as u8);
    out.push((v >> 32) as u8);
    out.push((v >> 24) as u8);
    out.push((v >> 16) as u8);
    out.push((v >> 8) as u8);
    out.push(v as u8);
    proof {
        assert(out@ =~= old(out)@ + spec_u64_be(v));
    }
}

/// Reads two big-endian bytes at `pos`.
pub fn read_u16_be(buf: &Vec<u8>, pos: usize) -> (r: Result<(u16, usize), DecodeError>)
    requires
        pos <= buf@.len(),
    ensures
        match r {
            Ok((v, n)) => pos + 2 <= buf@.len() && n == pos + 2
                && v == spec_u16_of(buf@[pos as int], buf@[pos as int + 1]),
            Err(e) => pos + 2 > buf@.len() && e == DecodeError::UnexpectedEnd,
        },
{
    if buf.len() - pos < 2 {
        return Err(DecodeError::UnexpectedEnd);
    }
    let v = ((buf[pos] as u16) << 8) | (buf[pos + 1] as u16);
    Ok((v, pos + 2))
}

/// Reads four big-endian bytes at `pos`.
pub fn read_u32_be(buf: &Vec<u8>, pos: usize) -> (r: Result<(u32, usize), DecodeError>)
    requires
        pos <= buf@.len(),
    ensures
        match r {
            Ok((v, n)) => pos + 4 <= buf@.len() && n == pos + 4
                && v == spec_u32_of(buf@[pos as int], buf@[pos as int + 1],
                    buf@[pos as int + 2], buf@[pos as int + 3]),
            Err(e) => pos + 4 > buf@.len() && e == DecodeError::UnexpectedEnd,
        },
{
    if buf.len() - pos < 4 {
        return Err(DecodeError::UnexpectedEnd);
    }
    let v = ((buf[pos] as u32) << 24) | ((buf[pos + 1] as u32) << 16)
        | ((buf[pos + 2] as u32) << 8) | (buf[pos + 3] as u32);
    Ok((v, pos + 4))
}

/// Reads eight big-endian bytes at `pos`.
pub fn read_u64_be(buf: &Vec<u8>, pos: usize) -> (r: Result<(u64, usize), DecodeError>)
    requires
        pos <= buf@.len(),
    ensures
        match r {
            Ok((v, n)) => pos + 8 <= buf@.len() && n == pos + 8
                && v == spec_u64_of(buf@[pos as int], buf@[pos as int + 1],
                    buf@[pos as int + 2], buf@[pos as int + 3], buf@[pos as int + 4],
                    buf@[pos as int + 5], buf@[pos as int + 6], buf@[pos as int + 7]),
            Err(e) => pos + 8 > buf@.len() && e == DecodeError::UnexpectedEnd,
        },
{
    if buf.len() - pos < 8 {
        return Err(DecodeError::UnexpectedEnd);
    }
    let v = ((buf[pos] as u64) << 56) | ((buf[pos + 1] as u64) << 48)
        | ((buf[pos + 2] as u64) << 40) | ((buf[pos + 3] as u64) << 32)
        | ((buf[pos + 4] as u64) << 24) | ((buf[pos + 5] as u64) << 16)
        | ((buf[pos + 6] as u64) << 8) | (buf[pos + 7] as u64);
    Ok((v, pos + 8))
}

/// Reads one byte at `pos`.
pub fn read_u8(buf: &Vec<u8>, pos: usize) -> (r: Result<(u8, usize), DecodeError>)
    requires
        pos <= buf@.len(),
    ensures
        match r {
            Ok((v, n)) => pos + 1 <= buf@.len() && n == pos + 1 && v == buf@[pos as int],
            Err(e) => pos + 1 > buf@.len() && e == DecodeError::UnexpectedEnd,
        },
{
    if pos >= buf.len() {
        return Err(DecodeError::UnexpectedEnd);
    }
    Ok((buf[pos], pos + 1))
}

/// The length-prefixed encoding of a byte string: its length as a
/// variable-length integer, then its bytes.
pub open spec fn spec_bstring(s: Seq<u8>) -> Seq<u8> {
    spec_varint(s.len() as u32) + s
}

/// Decodes a length-prefixed byte string whose declared length must not
/// exceed `max`.
pub open spec fn spec_bstring_dec(s: Seq<u8>, max: u32) -> Option<(Seq<u8>, nat)> {
    match spec_varint_dec(s, 5) {
        None => None,
        Some((len, n)) => if len > max {
            None
        } else if n + len > s.len() {
            None
        } else {
            Some((s.subrange(n as int, n + len), (n + len) as nat))
        },
    }
}

/// Appends the length-prefixed encoding of `s`.
pub fn write_bstring(out: &mut Vec<u8>, s: &Vec<u8>)
    requires
        s@.len() < 0x1_0000_0000,
    ensures
        final(out)@ == old(out)@ + spec_bstring(s@),
{
    write_varint_u32(out, s.len() as u32);
    let ghost mid = out@;
    let mut i: usize = 0;
    while i < s.len()
        invariant
            i <= s@.len(),
            out@ == mid + s@.subrange(0, i as int),
        decreases s@.len() - i,
    {
        out.push(s[i]);
        proof {
            assert(out@ =~= mid + s@.subrange(0, i + 1));
        }
        i += 1;
    }
    proof {
        assert(s@.subrange(0, s@.len() as int) =~= s@);
        assert(out@ =~= old(out)@ + spec_bstring(s@));
    }
}

/// Reads a length-prefixed byte string at `pos`, bounded by `max`.
///
/// A declared length above `max` fails with `StringTooLong` before any
/// payload byte is looked at; nothing is consumed on any failure.
pub fn read_bstring(buf: &Vec<u8>, pos: usize, max: u32) -> (r: Result<
    (Vec<u8>, usize),
    DecodeError,
>)
    requires
        pos <= buf@.len(),
    ensures
        match r {
            Ok((v, n)) => {
                &&& spec_bstring_dec(buf@.skip(pos as int), max)
                    == Some((v@, (n - pos) as nat))
                &&& pos < n <= buf@.len()
            },
            Err(e) => {
                &&& spec_bstring_dec(buf@.skip(pos as int), max) is None
                &&& e != DecodeError::UnknownOpcode
                &&& ((e == DecodeError::StringTooLong) <==> ({
                    let d = spec_varint_dec(buf@.skip(pos as int), 5);
                    d is Some && (d->0).0 > max
                }))
            },
        },
{
    let (len, p1) = match read_var_i32(buf, pos) {
        Ok((v, n)) => (v, n),
        Err(e) => {
            return Err(e);
        },
    };
    proof {
        lemma_varint_dec_bound(buf@.skip(pos as int), 5);
    }
    let len_u = len as u32;
    if len_u > max {
        return Err(DecodeError::StringTooLong);
    }
    if (buf.len() - p1) < len_u as usize {
        return Err(DecodeError::UnexpectedEnd);
    }
    let end: usize = p1 + len_u as usize;
    let mut v: Vec<u8> = Vec::new();
    let mut i: usize = p1;
    while i < end
        invariant
            p1 <= i <= end <= buf@.len(),
            v@ == buf@.subrange(p1 as int, i as int),
        decreases end - i,
    {
        v.push(buf[i]);
        proof {
            assert(v@ =~= buf@.subrange(p1 as int, i + 1));
        }
        i += 1;
    }
    proof {
        let s = buf@.skip(pos as int);
        let d = spec_varint_dec(s, 5);
        assert((d->0).0 == len_u as int);
        assert((d->0).1 == p1 - pos);
        assert(s.subrange((p1 - pos) as int, p1 - pos + len_u)
            =~= buf@.subrange(p1 as int, end as int));
    }
    Ok((v, end))
}

/// Round trip for length-prefixed byte strings within their bound.
pub proof fn lemma_bstring_roundtrip(s: Seq<u8>, rest: Seq<u8>, max: u32)
    requires
        s.len() <= max,
    ensures
        spec_bstring_dec(spec_bstring(s) + rest, max)
            == Some((s, spec_bstring(s).len())),
{
    lemma_varint_roundtrip(s.len() as u32, s + rest, 5);
    let whole = spec_bstring(s) + rest;
    let pre = spec_varint(s.len() as u32);
    assert(whole =~= pre + (s + rest));
    let d = spec_varint_dec(whole, 5);
    assert(d == Some((s.len() as int, pre.len())));
    assert(whole.subrange(pre.len() as int, pre.len() + s.len() as int) =~= s);
}

} // verus!
