use vstd::prelude::*;
use crate::packets::{
    FieldVal, FieldValue, PacketDirection, PacketKind, decode_fields, encode_fields,
    fields_match, lemma_fields_roundtrip, spec_dec_fields, spec_enc_fields, spec_fields_match,
    vals_view,
};
use crate::table::{
    lookup, resolve, lemma_resolve_lookup, spec_lookup, spec_resolve,
};
use crate::wire::{
    DecodeError, lemma_i32_bits, lemma_varint_roundtrip, read_var_i32, spec_varint,
    spec_varint_dec, write_var_i32,
};

verus! {

/// Why an encode was refused.
#[derive(Clone, Copy, Debug, PartialEq, Eq, Structural)]
pub enum EncodeError {
    /// The packet kind has no wire representation registered for the target
    /// protocol version; encoding fails loudly instead of emitting wrong
    /// bytes.
    UnsupportedVersion,
    /// The given field values do not fit the layout registered for the
    /// version (wrong arity, wrong types, or a string over its bound).
    FieldMismatch,
}

/// The wire bytes of a packet: the version's opcode as a variable-length
/// integer, then the fields in declared order. `None` when the version has
/// no entry for the kind or the values do not fit its layout.
pub open spec fn spec_encode_packet(kind: PacketKind, version: u32, vs: Seq<FieldVal>) -> Option<
    Seq<u8>,
> {
    match spec_lookup(kind, version) {
        None => None,
        Some((op, l)) => if spec_fields_match(l, vs) {
            Some(spec_varint(op as u32) + spec_enc_fields(vs))
        } else {
            None
        },
    }
}

/// Decodes one packet from `s` for a direction and negotiated version: the
/// kind, its field values and the bytes consumed, or `None` on an unknown
/// opcode or a failed field read.
pub open spec fn spec_decode_packet(dir: PacketDirection, version: u32, s: Seq<u8>) -> Option<
    (PacketKind, Seq<FieldVal>, nat),
> {
    match spec_varint_dec(s, 5) {
        None => None,
        Some((opv, n)) => {
            let op = ((opv as u32) as i32);
            match spec_resolve(dir, version, op) {
                None => None,
                Some(kind) => {
                    let l = (spec_lookup(kind, version)->0).1;
                    match spec_dec_fields(l, s.skip(n as int)) {
                        None => None,
                        Some((vs, m)) => Some((kind, vs, (n + m) as nat)),
                    }
                },
            }
        },
    }
}

/// Encodes a packet for a target protocol version, using the layout the
/// version table registers for it. A version without an entry is refused
/// with `UnsupportedVersion`; values that do not fit the layout are refused
/// with `FieldMismatch`.
pub fn encode_packet(kind: PacketKind, version: u32, values: &Vec<FieldValue>) -> (r: Result<
    Vec<u8>,
    EncodeError,
>)
    ensures
        match r {
            Ok(bytes) => spec_encode_packet(kind, version, vals_view(values@))
                == Some(bytes@),
            Err(e) => {
                &&& spec_encode_packet(kind, version, vals_view(values@)) is None
                &&& ((e == EncodeError::UnsupportedVersion)
                    <==> spec_lookup(kind, version) is None)
            },
        },
{
    let (op, layout) = match lookup(kind, version) {
        Some(e) => e,
        None => {
            return Err(EncodeError::UnsupportedVersion);
        },
    };
    if !fields_match(&layout, values) {
        return Err(EncodeError::FieldMismatch);
    }
    let mut out: Vec<u8> = Vec::new();
    write_var_i32(&mut out, op);
    proof {
        crate::packets::lemma_match_bounds(layout@, values@);
        assert(out@ =~= spec_varint(op as u32));
    }
    encode_fields(&mut out, values);
    proof {
        assert((op as u32) as i32 == op) by {
            lemma_i32_bits(op);
        }
    }
    Ok(out)
}

/// Decodes one packet from the head of `buf` for a direction and negotiated
/// version. An opcode without a decoder is the distinguishable
/// `UnknownOpcode`; field errors carry the failing primitive's error.
pub fn decode_packet(dir: PacketDirection, version: u32, buf: &Vec<u8>) -> (r: Result<
    (PacketKind, Vec<FieldValue>, usize),
    DecodeError,
>)
    ensures
        match r {
            Ok((kind, values, n)) => {
                &&& spec_decode_packet(dir, version, buf@)
                    == Some((kind, vals_view(values@), n as nat))
                &&& n <= buf@.len()
            },
            Err(e) => {
                &&& spec_decode_packet(dir, version, buf@) is None
                &&& ((e == DecodeError::UnknownOpcode) <==> ({
                    let d = spec_varint_dec(buf@, 5);
                    d is Some && spec_resolve(dir, version, (((d->0).0 as u32) as i32)) is None
                }))
            },
        },
{
    proof {
        assert(buf@.skip(0) =~= buf@);
    }
    let (op, p) = match read_var_i32(buf, 0) {
        Ok(e) => e,
        Err(e) => {
            return Err(e);
        },
    };
    proof {
        lemma_i32_bits(op);
        assert(((op as u32) as int) as u32 == op as u32);
    }
    let kind = match resolve(dir, version, op) {
        Some(k) => k,
        None => {
            return Err(DecodeError::UnknownOpcode);
        },
    };
    let layout = match lookup(kind, version) {
        Some(e) => e.1,
        None => {
            proof {
                assert(false);
            }
            vstd::pervasive::unreached()
        },
    };
    match decode_fields(buf, p, &layout) {
        Ok((values, n)) => Ok((kind, values, n)),
        Err(e) => {
            proof {
                assert(e != DecodeError::UnknownOpcode);
            }
            Err(e)
        },
    }
}

/// Round trip: for every protocol version and every packet kind registered
/// for it, decoding an encoding (in the kind's direction) yields the kind
/// and the field values back, consuming the whole encoding, for all field
/// values within the layout's valid domain.
pub proof fn lemma_packet_roundtrip(kind: PacketKind, version: u32, vs: Seq<FieldVal>)
    requires
        spec_lookup(kind, version) is Some,
        spec_fields_match((spec_lookup(kind, version)->0).1, vs),
    ensures
        spec_encode_packet(kind, version, vs) is Some,
        spec_decode_packet(
            crate::table::spec_direction(kind),
            version,
            spec_encode_packet(kind, version, vs)->0,
        ) == Some((kind, vs, spec_encode_packet(kind, version, vs)->0.len() as nat)),
{
    let e = spec_lookup(kind, version)->0;
    let op = e.0;
    let l = e.1;
    let body = spec_enc_fields(vs);
    let whole = spec_varint(op as u32) + body;
    lemma_varint_roundtrip(op as u32, body, 5);
    lemma_i32_bits(op);
    assert((((op as u32) as int) as u32) as i32 == op);
    lemma_resolve_lookup(kind, version);
    let n = spec_varint(op as u32).len();
    assert(whole.skip(n as int) =~= body);
    assert(body + Seq::<u8>::empty() =~= body);
    lemma_fields_roundtrip(l, vs, Seq::<u8>::empty());
    assert(whole.len() == n + body.len());
}

} // verus!
