use vstd::prelude::*;
use crate::wire::{
    DecodeError, lemma_bstring_roundtrip, lemma_i16_bits, lemma_i32_bits, lemma_i64_bits,
    lemma_i8_bits, lemma_u16_be_roundtrip, lemma_u32_be_roundtrip, lemma_u64_be_roundtrip,
    lemma_varint_roundtrip, read_bstring, read_u16_be, read_u32_be, read_u64_be, read_u8,
    read_var_i32, spec_bstring, spec_bstring_dec, spec_u16_be, spec_u16_of, spec_u32_be,
    spec_u32_of, spec_u64_be, spec_u64_of, spec_varint, spec_varint_dec, write_bstring,
    write_u16_be, write_u32_be, write_u64_be, write_var_i32,
};

verus! {

/// The logical packet kinds this protocol core speaks. The same kind has
/// different opcodes and field layouts across protocol versions; the
/// version table owns that mapping.
#[derive(Clone, Copy, Debug, PartialEq, Eq, Structural)]
pub enum PacketKind {
    JoinGame,
    ServerDifficulty,
    UpdateViewPosition,
    PlayerAbilities,
    Disconnect,
    PositionLook,
    UnloadChunk,
    KeepAlive,
    ClientSettings,
}

/// Which side sends a packet. Opcode spaces are separate per direction.
#[derive(Clone, Copy, Debug, PartialEq, Eq, Structural)]
pub enum PacketDirection {
    Serverbound,
    Clientbound,
}

/// A field's wire type. `F32Bits`/`F64Bits` carry IEEE float fields as
/// their raw big-endian bits: the codec moves the four or eight bytes
/// unchanged, and interpreting them as floats is the network boundary's
/// concern. `LenStr` is a length-prefixed UTF-8 byte string with an
/// enforced maximum byte length.
#[derive(Clone, Copy, Debug, PartialEq, Eq, Structural)]
pub enum FieldType {
    Bool,
    U8,
    I8,
    U16,
    I16,
    I32,
    I64,
    F32Bits,
    F64Bits,
    VarInt,
    LenStr(u32),
}

/// A typed field value as carried by executable code; string payloads are
/// UTF-8 bytes.
#[derive(Clone, Debug, PartialEq, Eq)]
pub enum FieldValue {
    Bool(bool),
    U8(u8),
    I8(i8),
    U16(u16),
    I16(i16),
    I32(i32),
    I64(i64),
    F32Bits(u32),
    F64Bits(u64),
    VarInt(i32),
    Str(Vec<u8>),
}

/// The mathematical form of a field value.
pub enum FieldVal {
    Bool(bool),
    U8(u8),
    I8(i8),
    U16(u16),
    I16(i16),
    I32(i32),
    I64(i64),
    F32Bits(u32),
    F64Bits(u64),
    VarInt(i32),
    Str(Seq<u8>),
}

impl View for FieldValue {
    type V = FieldVal;

    open spec fn view(&self) -> FieldVal {
        match self {
            FieldValue::Bool(b) => FieldVal::Bool(*b),
            FieldValue::U8(x) => FieldVal::U8(*x),
            FieldValue::I8(x) => FieldVal::I8(*x),
            FieldValue::U16(x) => FieldVal::U16(*x),
            FieldValue::I16(x) => FieldVal::I16(*x),
            FieldValue::I32(x) => FieldVal::I32(*x),
            FieldValue::I64(x) => FieldVal::I64(*x),
            FieldValue::F32Bits(x) => FieldVal::F32Bits(*x),
            FieldValue::F64Bits(x) => FieldVal::F64Bits(*x),
            FieldValue::VarInt(x) => FieldVal::VarInt(*x),
            FieldValue::Str(v) => FieldVal::Str(v@),
        }
    }
}

/// The views of a sequence of field values.
pub open spec fn vals_view(s: Seq<FieldValue>) -> Seq<FieldVal> {
    s.map_values(|f: FieldValue| f@)
}

/// True iff `v` inhabits the wire type `t`, within its valid domain.
pub open spec fn spec_field_matches(t: FieldType, v: FieldVal) -> bool {
    match (t, v) {
        (FieldType::Bool, FieldVal::Bool(_)) => true,
        (FieldType::U8, FieldVal::U8(_)) => true,
        (FieldType::I8, FieldVal::I8(_)) => true,
        (FieldType::U16, FieldVal::U16(_)) => true,
        (FieldType::I16, FieldVal::I16(_)) => true,
        (FieldType::I32, FieldVal::I32(_)) => true,
        (FieldType::I64, FieldVal::I64(_)) => true,
        (FieldType::F32Bits, FieldVal::F32Bits(_)) => true,
        (FieldType::F64Bits, FieldVal::F64Bits(_)) => true,
        (FieldType::VarInt, FieldVal::VarInt(_)) => true,
        (FieldType::LenStr(max), FieldVal::Str(s)) => s.len() <= max,
        _ => false,
    }
}

/// True iff every value inhabits the matching slot of the layout.
pub open spec fn spec_fields_match(l: Seq<FieldType>, vs: Seq<FieldVal>) -> bool {
    l.len() == vs.len() && forall|i: int| 0 <= i < l.len()
        ==> spec_field_matches(l[i], #[trigger] vs[i])
}

/// The wire bytes of one field value.
pub open spec fn spec_enc_field(v: FieldVal) -> Seq<u8> {
    match v {
        FieldVal::Bool(b) => seq![if b { 1u8 } else { 0u8 }],
        FieldVal::U8(x) => seq![x],
        FieldVal::I8(x) => seq![x as u8],
        FieldVal::U16(x) => spec_u16_be(x),
        FieldVal::I16(x) => spec_u16_be(x as u16),
        FieldVal::I32(x) => spec_u32_be(x as u32),
        FieldVal::I64(x) => spec_u64_be(x as u64),
        FieldVal::F32Bits(x) => spec_u32_be(x),
        FieldVal::F64Bits(x) => spec_u64_be(x),
        FieldVal::VarInt(x) => spec_varint(x as u32),
        FieldVal::Str(s) => spec_bstring(s),
    }
}

/// The wire bytes of the field values in declared order.
pub open spec fn spec_enc_fields(vs: Seq<FieldVal>) -> Seq<u8>
    decreases vs.len(),
{
    if vs.len() == 0 {
        Seq::empty()
    } else {
        spec_enc_field(vs[0]) + spec_enc_fields(vs.skip(1))
    }
}

/// Decodes one field of wire type `t` from the head of `s`: the value and
/// the bytes consumed, or `None` on a failed read.
pub open spec fn spec_dec_field(t: FieldType, s: Seq<u8>) -> Option<(FieldVal, nat)> {
    match t {
        FieldType::Bool => if s.len() < 1 {
            None
        } else {
            Some((FieldVal::Bool(s[0] != 0), 1nat))
        },
        FieldType::U8 => if s.len() < 1 {
            None
        } else {
            Some((FieldVal::U8(s[0]), 1nat))
        },
        FieldType::I8 => if s.len() < 1 {
            None
        } else {
            Some((FieldVal::I8(s[0] as i8), 1nat))
        },
        FieldType::U16 => if s.len() < 2 {
            None
        } else {
            Some((FieldVal::U16(spec_u16_of(s[0], s[1])), 2nat))
        },
        FieldType::I16 => if s.len() < 2 {
            None
        } else {
            Some((FieldVal::I16(spec_u16_of(s[0], s[1]) as i16), 2nat))
        },
        FieldType::I32 => if s.len() < 4 {
            None
        } else {
            Some((FieldVal::I32(spec_u32_of(s[0], s[1], s[2], s[3]) as i32), 4nat))
        },
        FieldType::I64 => if s.len() < 8 {
            None
        } else {
            Some((
                FieldVal::I64(spec_u64_of(s[0], s[1], s[2], s[3], s[4], s[5], s[6], s[7]) as i64),
                8nat,
            ))
        },
        FieldType::F32Bits => if s.len() < 4 {
            None
        } else {
            Some((FieldVal::F32Bits(spec_u32_of(s[0], s[1], s[2], s[3])), 4nat))
        },
        FieldType::F64Bits => if s.len() < 8 {
            None
        } else {
            Some((
                FieldVal::F64Bits(spec_u64_of(s[0], s[1], s[2], s[3], s[4], s[5], s[6], s[7])),
                8nat,
            ))
        },
        FieldType::VarInt => match spec_varint_dec(s, 5) {
            None => None,
            Some((v, n)) => Some((FieldVal::VarInt((v as u32) as i32), n)),
        },
        FieldType::LenStr(max) => match spec_bstring_dec(s, max) {
            None => None,
            Some((b, n)) => Some((FieldVal::Str(b), n)),
        },
    }
}

/// Decodes the fields of a layout in declared order: the values and the
/// bytes consumed, or `None` as soon as one field fails.
pub open spec fn spec_dec_fields(l: Seq<FieldType>, s: Seq<u8>) -> Option<(Seq<FieldVal>, nat)>
    decreases l.len(),
{
    if l.len() == 0 {
        Some((Seq::empty(), 0nat))
    } else {
        match spec_dec_field(l[0], s) {
            None => None,
            Some((v, n)) => match spec_dec_fields(l.skip(1), s.skip(n as int)) {
                None => None,
                Some((vs, m)) => Some((seq![v] + vs, (n + m) as nat)),
            },
        }
    }
}

/// Round trip for one field within its valid domain.
pub proof fn lemma_field_roundtrip(t: FieldType, v: FieldVal, rest: Seq<u8>)
    requires
        spec_field_matches(t, v),
    ensures
        spec_enc_field(v).len() >= 1,
        spec_dec_field(t, spec_enc_field(v) + rest) == Some((v, spec_enc_field(v).len())),
{
    let s = spec_enc_field(v) + rest;
    match v {
        FieldVal::Bool(b) => {
            assert(s[0] == (if b { 1u8 } else { 0u8 }));
        },
        FieldVal::U8(x) => {
            assert(s[0] == x);
        },
        FieldVal::I8(x) => {
            assert(s[0] == x as u8);
            lemma_i8_bits(x);
        },
        FieldVal::U16(x) => {
            lemma_u16_be_roundtrip(x);
        },
        FieldVal::I16(x) => {
            lemma_u16_be_roundtrip(x as u16);
            lemma_i16_bits(x);
        },
        FieldVal::I32(x) => {
            lemma_u32_be_roundtrip(x as u32);
            lemma_i32_bits(x);
        },
        FieldVal::I64(x) => {
            lemma_u64_be_roundtrip(x as u64);
            lemma_i64_bits(x);
        },
        FieldVal::F32Bits(x) => {
            lemma_u32_be_roundtrip(x);
        },
        FieldVal::F64Bits(x) => {
            lemma_u64_be_roundtrip(x);
        },
        FieldVal::VarInt(x) => {
            lemma_varint_roundtrip(x as u32, rest, 5);
            lemma_i32_bits(x);
            assert(((x as u32) as int) as u32 == x as u32);
        },
        FieldVal::Str(b) => {
            let max = t->LenStr_0;
            lemma_bstring_roundtrip(b, rest, max);
        },
    }
}

/// Round trip for a whole field sequence within its valid domain.
pub proof fn lemma_fields_roundtrip(l: Seq<FieldType>, vs: Seq<FieldVal>, rest: Seq<u8>)
    requires
        spec_fields_match(l, vs),
    ensures
        spec_dec_fields(l, spec_enc_fields(vs) + rest) == Some((vs, spec_enc_fields(vs).len())),
    decreases l.len(),
{
    if l.len() == 0 {
        assert(vs =~= Seq::<FieldVal>::empty());
        assert(spec_enc_fields(vs) =~= Seq::<u8>::empty());
    } else {
        let head = spec_enc_field(vs[0]);
        let tail = spec_enc_fields(vs.skip(1));
        lemma_field_roundtrip(l[0], vs[0], tail + rest);
        assert(spec_enc_fields(vs) + rest =~= head + (tail + rest));
        assert(spec_fields_match(l.skip(1), vs.skip(1))) by {
            assert(forall|i: int| 0 <= i < l.len() - 1
                ==> spec_field_matches(l.skip(1)[i], #[trigger] vs.skip(1)[i]));
        }
        lemma_fields_roundtrip(l.skip(1), vs.skip(1), rest);
        assert((head + (tail + rest)).skip(head.len() as int) =~= tail + rest);
        assert(seq![vs[0]] + vs.skip(1) =~= vs);
    }
}

/// Appending one value appends its encoding.
pub proof fn lemma_enc_fields_push(vs: Seq<FieldVal>, v: FieldVal)
    ensures
        spec_enc_fields(vs.push(v)) == spec_enc_fields(vs) + spec_enc_field(v),
    decreases vs.len(),
{
    if vs.len() == 0 {
        assert(vs.push(v)[0] == v);
        assert(vs.push(v).skip(1) =~= Seq::<FieldVal>::empty());
        assert(spec_enc_fields(vs.push(v).skip(1)) == Seq::<u8>::empty());
        assert(spec_enc_fields(vs.push(v))
            == spec_enc_field(v) + spec_enc_fields(vs.push(v).skip(1)));
        assert(spec_enc_fields(vs.push(v)) =~= spec_enc_field(v));
        assert(spec_enc_fields(vs) + spec_enc_field(v) =~= spec_enc_field(v));
    } else {
        assert(vs.push(v)[0] == vs[0]);
        assert(vs.push(v).skip(1) =~= vs.skip(1).push(v));
        lemma_enc_fields_push(vs.skip(1), v);
        assert(spec_enc_fields(vs.push(v))
            =~= spec_enc_fields(vs) + spec_enc_field(v));
    }
}

/// Appends the wire bytes of every value in declared order.
pub fn encode_fields(out: &mut Vec<u8>, values: &Vec<FieldValue>)
    requires
        forall|i: int| 0 <= i < values@.len()
            ==> (#[trigger] values@[i] is Str ==> values@[i]->0@.len() < 0x1_0000_0000),
    ensures
        final(out)@ == old(out)@ + spec_enc_fields(vals_view(values@)),
{
    let ghost base = out@;
    let mut i: usize = 0;
    while i < values.len()
        invariant
            i <= values@.len(),
            forall|j: int| 0 <= j < values@.len()
                ==> (#[trigger] values@[j] is Str ==> values@[j]->0@.len() < 0x1_0000_0000),
            out@ == base + spec_enc_fields(vals_view(values@.subrange(0, i as int))),
        decreases values@.len() - i,
    {
        let ghost pre = vals_view(values@.subrange(0, i as int));
        match &values[i] {
            FieldValue::Bool(b) => {
                out.push(if *b { 1u8 } else { 0u8 });
            },
            FieldValue::U8(x) => {
                out.push(*x);
            },
            FieldValue::I8(x) => {
                out.push(#[verifier::truncate] (*x as u8));
            },
            FieldValue::U16(x) => {
                write_u16_be(out, *x);
            },
            FieldValue::I16(x) => {
                write_u16_be(out, #[verifier::truncate] (*x as u16));
            },
            FieldValue::I32(x) => {
                write_u32_be(out, #[verifier::truncate] (*x as u32));
            },
            FieldValue::I64(x) => {
                write_u64_be(out, #[verifier::truncate] (*x as u64));
            },
            FieldValue::F32Bits(x) => {
                write_u32_be(out, *x);
            },
            FieldValue::F64Bits(x) => {
                write_u64_be(out, *x);
            },
            FieldValue::VarInt(x) => {
                write_var_i32(out, *x);
            },
            FieldValue::Str(v) => {
                write_bstring(out, v);
            },
        }
        proof {
            lemma_enc_fields_push(pre, values@[i as int]@);
            assert(vals_view(values@.subrange(0, i + 1)) =~= pre.push(values@[i as int]@));
            assert(out@ =~= base + spec_enc_fields(vals_view(values@.subrange(0, i + 1))));
        }
        i += 1;
    }
    proof {
        assert(values@.subrange(0, values@.len() as int) =~= values@);
    }
}

/// Reads one field of wire type `t` at `pos`.
pub fn decode_field(buf: &Vec<u8>, pos: usize, t: FieldType) -> (r: Result<
    (FieldValue, usize),
    DecodeError,
>)
    requires
        pos <= buf@.len(),
    ensures
        match r {
            Ok((v, n)) => {
                &&& spec_dec_field(t, buf@.skip(pos as int)) == Some((v@, (n - pos) as nat))
                &&& pos < n <= buf@.len()
            },
            Err(e) => spec_dec_field(t, buf@.skip(pos as int)) is None
                && e != DecodeError::UnknownOpcode,
        },
{
    let ghost s = buf@.skip(pos as int);
    match t {
        FieldType::Bool => match read_u8(buf, pos) {
            Ok((b, n)) => Ok((FieldValue::Bool(b != 0), n)),
            Err(e) => Err(e),
        },
        FieldType::U8 => match read_u8(buf, pos) {
            Ok((b, n)) => Ok((FieldValue::U8(b), n)),
            Err(e) => Err(e),
        },
        FieldType::I8 => match read_u8(buf, pos) {
            Ok((b, n)) => {
                proof {
                    assert(s[0] == b);
                }
                Ok((FieldValue::I8(#[verifier::truncate] (b as i8)), n))
            },
            Err(e) => Err(e),
        },
        FieldType::U16 => match read_u16_be(buf, pos) {
            Ok((v, n)) => Ok((FieldValue::U16(v), n)),
            Err(e) => Err(e),
        },
        FieldType::I16 => match read_u16_be(buf, pos) {
            Ok((v, n)) => Ok((FieldValue::I16(#[verifier::truncate] (v as i16)), n)),
            Err(e) => Err(e),
        },
        FieldType::I32 => match read_u32_be(buf, pos) {
            Ok((v, n)) => Ok((FieldValue::I32(#[verifier::truncate] (v as i32)), n)),
            Err(e) => Err(e),
        },
        FieldType::I64 => match read_u64_be(buf, pos) {
            Ok((v, n)) => Ok((FieldValue::I64(#[verifier::truncate] (v as i64)), n)),
            Err(e) => Err(e),
        },
        FieldType::F32Bits => match read_u32_be(buf, pos) {
            Ok((v, n)) => Ok((FieldValue::F32Bits(v), n)),
            Err(e) => Err(e),
        },
        FieldType::F64Bits => match read_u64_be(buf, pos) {
            Ok((v, n)) => Ok((FieldValue::F64Bits(v), n)),
            Err(e) => Err(e),
        },
        FieldType::VarInt => match read_var_i32(buf, pos) {
            Ok((v, n)) => {
                proof {
                    lemma_i32_bits(v);
                    assert(((v as u32) as int) as u32 == v as u32);
                }
                Ok((FieldValue::VarInt(v), n))
            },
            Err(e) => Err(e),
        },
        FieldType::LenStr(max) => match read_bstring(buf, pos, max) {
            Ok((v, n)) => Ok((FieldValue::Str(v), n)),
            Err(e) => Err(e),
        },
    }
}

/// Reads the fields of `layout` in order, starting at `pos`.
pub fn decode_fields(buf: &Vec<u8>, pos: usize, layout: &Vec<FieldType>) -> (r: Result<
    (Vec<FieldValue>, usize),
    DecodeError,
>)
    requires
        pos <= buf@.len(),
    ensures
        match r {
            Ok((vs, n)) => {
                &&& spec_dec_fields(layout@, buf@.skip(pos as int))
                    == Some((vals_view(vs@), (n - pos) as nat))
                &&& pos <= n <= buf@.len()
            },
            Err(e) => spec_dec_fields(layout@, buf@.skip(pos as int)) is None
                && e != DecodeError::UnknownOpcode,
        },
{
    proof {
        assert(layout@.skip(0) =~= layout@);
    }
    decode_fields_from(buf, pos, layout, 0)
}

/// Reads the fields of `layout[idx..]` in order, starting at `pos`.
fn decode_fields_from(buf: &Vec<u8>, pos: usize, layout: &Vec<FieldType>, idx: usize) -> (r:
    Result<(Vec<FieldValue>, usize), DecodeError>)
    requires
        pos <= buf@.len(),
        idx <= layout@.len(),
    ensures
        match r {
            Ok((vs, n)) => {
                &&& spec_dec_fields(layout@.skip(idx as int), buf@.skip(pos as int))
                    == Some((vals_view(vs@), (n - pos) as nat))
                &&& pos <= n <= buf@.len()
            },
            Err(e) => spec_dec_fields(layout@.skip(idx as int), buf@.skip(pos as int)) is None
                && e != DecodeError::UnknownOpcode,
        },
    decreases layout@.len() - idx,
{
    if idx >= layout.len() {
        proof {
            assert(layout@.skip(idx as int) =~= Seq::<FieldType>::empty());
            assert(vals_view(Seq::<FieldValue>::empty()) =~= Seq::<FieldVal>::empty());
        }
        return Ok((Vec::new(), pos));
    }
    let t = layout[idx];
    proof {
        assert(layout@.skip(idx as int)[0] == t);
    }
    match decode_field(buf, pos, t) {
        Ok((v, n)) => {
            match decode_fields_from(buf, n, layout, idx + 1) {
                Ok((mut vs, m)) => {
                    vs.insert(0, v);
                    proof {
                        assert(layout@.skip(idx as int).skip(1) =~= layout@.skip(idx as int + 1));
                        assert(buf@.skip(pos as int).skip((n - pos) as int)
                            =~= buf@.skip(n as int));
                        assert(vals_view(vs@) =~= seq![v@] + vals_view(vs@.skip(1)));
                    }
                    Ok((vs, m))
                },
                Err(e) => {
                    proof {
                        assert(layout@.skip(idx as int).skip(1) =~= layout@.skip(idx as int + 1));
                        assert(buf@.skip(pos as int).skip((n - pos) as int)
                            =~= buf@.skip(n as int));
                    }
                    Err(e)
                },
            }
        },
        Err(e) => Err(e),
    }
}

/// True iff every value inhabits the matching slot of the layout, within
/// its valid domain.
pub fn fields_match(layout: &Vec<FieldType>, values: &Vec<FieldValue>) -> (r: bool)
    ensures
        r == spec_fields_match(layout@, vals_view(values@)),
{
    proof {
        assert(vals_view(values@).len() == values@.len());
    }
    if layout.len() != values.len() {
        return false;
    }
    let mut i: usize = 0;
    while i < layout.len()
        invariant
            i <= layout@.len(),
            layout@.len() == values@.len(),
            forall|j: int| 0 <= j < i
                ==> spec_field_matches(layout@[j], #[trigger] vals_view(values@)[j]),
        decreases layout@.len() - i,
    {
        let ok = match (&layout[i], &values[i]) {
            (FieldType::Bool, FieldValue::Bool(_)) => true,
            (FieldType::U8, FieldValue::U8(_)) => true,
            (FieldType::I8, FieldValue::I8(_)) => true,
            (FieldType::U16, FieldValue::U16(_)) => true,
            (FieldType::I16, FieldValue::I16(_)) => true,
            (FieldType::I32, FieldValue::I32(_)) => true,
            (FieldType::I64, FieldValue::I64(_)) => true,
            (FieldType::F32Bits, FieldValue::F32Bits(_)) => true,
            (FieldType::F64Bits, FieldValue::F64Bits(_)) => true,
            (FieldType::VarInt, FieldValue::VarInt(_)) => true,
            (FieldType::LenStr(max), FieldValue::Str(s)) => s.len() <= *max as usize,
            _ => false,
        };
        proof {
            assert(vals_view(values@)[i as int] == values@[i as int]@);
            assert(ok == spec_field_matches(layout@[i as int], vals_view(values@)[i as int]));
        }
        if !ok {
            return false;
        }
        i += 1;
    }
    true
}

/// Values that fit a layout have every string payload below the 32-bit
/// length cap.
pub proof fn lemma_match_bounds(l: Seq<FieldType>, values: Seq<FieldValue>)
    requires
        spec_fields_match(l, vals_view(values)),
    ensures
        forall|i: int| 0 <= i < values.len()
            ==> (#[trigger] values[i] is Str ==> values[i]->0@.len() < 0x1_0000_0000),
{
    assert(vals_view(values).len() == values.len());
    assert forall|i: int| 0 <= i < values.len()
        implies (#[trigger] values[i] is Str ==> values[i]->0@.len() < 0x1_0000_0000) by {
        if values[i] is Str {
            assert(vals_view(values)[i] == values[i]@);
            assert(spec_field_matches(l[i], vals_view(values)[i]));
        }
    }
}

} // verus!
