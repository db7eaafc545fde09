//! Dynamic virtual channel PDUs: the common one-byte header and the
//! variable-size fields (channel id, lengths) that follow it.
pub mod data_first;

use vstd::prelude::*;

verus! {

/// Size of the DVC header byte.
pub const HEADER_SIZE: usize = 1;

/// Largest DVC PDU that carries data, header included.
pub const PDU_WITH_DATA_MAX_SIZE: usize = 1600;

/// `Cmd` value of the DVC header for a `DYNVC_DATA_FIRST` PDU.
pub const PDU_TYPE_DATA_FIRST: u8 = 0x02;

/// Why decoding a PDU failed.
#[derive(Debug, Clone, Copy, PartialEq, Eq)]
pub enum PduErrorKind {
    /// The input holds fewer bytes than the PDU needs.
    NotEnoughBytes { received: usize, expected: usize },
    /// The input is long enough but its content breaks the format's rules.
    InvalidMessage { field: &'static str, reason: &'static str },
}

/// Width of a variable-size DVC field (`cbChId`, `Sp`, `Len`).
#[derive(Debug, Clone, Copy, PartialEq, Eq, Structural)]
pub enum FieldType {
    U8,
    U16,
    U32,
}

/// Value of the two header bits that select a field width.
pub open spec fn field_bits(t: FieldType) -> u8 {
    match t {
        FieldType::U8 => 0,
        FieldType::U16 => 1,
        FieldType::U32 => 2,
    }
}

/// Number of bytes of a field of width `t`.
pub open spec fn field_size(t: FieldType) -> nat {
    match t {
        FieldType::U8 => 1,
        FieldType::U16 => 2,
        FieldType::U32 => 4,
    }
}

/// Exclusive upper bound of the values that a field of width `t` holds.
pub open spec fn field_limit(t: FieldType) -> int {
    match t {
        FieldType::U8 => 0x100,
        FieldType::U16 => 0x1_0000,
        FieldType::U32 => 0x1_0000_0000,
    }
}

/// Little-endian bytes of `value` in a field of width `t`; the value is
/// truncated to the field's width.
pub open spec fn field_bytes(value: u32, t: FieldType) -> Seq<u8> {
    match t {
        FieldType::U8 => seq![(value % 256) as u8],
        FieldType::U16 => seq![(value % 256) as u8, ((value / 256) % 256) as u8],
        FieldType::U32 => seq![
            (value % 256) as u8,
            ((value / 256) % 256) as u8,
            ((value / 0x1_0000) % 256) as u8,
            (value / 0x100_0000) as u8,
        ],
    }
}

/// The value of a little-endian field of width `t` that starts at `offset`.
pub open spec fn field_value(bytes: Seq<u8>, offset: int, t: FieldType) -> u32 {
    match t {
        FieldType::U8 => bytes[offset] as u32,
        FieldType::U16 => (bytes[offset] + 256 * bytes[offset + 1]) as u32,
        FieldType::U32 => (bytes[offset] + 0x100 * bytes[offset + 1] + 0x1_0000 * bytes[offset + 2]
            + 0x100_0000 * bytes[offset + 3]) as u32,
    }
}

/// The DVC header byte: `Cmd` in the high four bits, then `Sp`, then `cbChId`.
pub open spec fn header_byte(pdu_type: u8, pdu_dependent: u8, channel_id_type: u8) -> u8 {
    (pdu_type * 16 + pdu_dependent * 4 + channel_id_type) as u8
}

impl FieldType {
    /// Number of bytes of a field of this width.
    pub fn size(&self) -> (r: usize)
        ensures
            r == field_size(*self),
    {
        match self {
            FieldType::U8 => 1,
            FieldType::U16 => 2,
            FieldType::U32 => 4,
        }
    }

    /// The two header bits that select this width.
    pub fn bits(&self) -> (r: u8)
        ensures
            r == field_bits(*self),
    {
        match self {
            FieldType::U8 => 0,
            FieldType::U16 => 1,
            FieldType::U32 => 2,
        }
    }

    /// Reads a little-endian field of this width at `offset` of `src`.
    pub fn read_according_to_type(&self, src: &[u8], offset: usize) -> (res: Result<
        u32,
        PduErrorKind,
    >)
        requires
            offset <= src.len(),
        ensures
            offset + field_size(*self) <= src.len() ==> res == Ok::<u32, PduErrorKind>(
                field_value(src@, offset as int, *self),
            ),
            offset + field_size(*self) > src.len() ==> res == Err::<u32, PduErrorKind>(
                PduErrorKind::NotEnoughBytes {
                    received: (src.len() - offset) as usize,
                    expected: field_size(*self) as usize,
                },
            ),
    {
        let size = self.size();
        if src.len() - offset < size {
            return Err(PduErrorKind::NotEnoughBytes { received: src.len() - offset, expected: size });
        }
        match self {
            FieldType::U8 => Ok(src[offset] as u32),
            FieldType::U16 => Ok(src[offset] as u32 + 256 * (src[offset + 1] as u32)),
            FieldType::U32 => Ok(
                src[offset] as u32 + 0x100 * (src[offset + 1] as u32) + 0x1_0000 * (
                src[offset + 2] as u32) + 0x100_0000 * (src[offset + 3] as u32),
            ),
        }
    }

    /// Appends `value` to `dst` as a little-endian field of this width,
    /// truncated to the width.
    pub fn write_according_to_type(&self, dst: &mut Vec<u8>, value: u32)
        ensures
            final(dst)@ == old(dst)@ + field_bytes(value, *self),
    {
        match self {
            FieldType::U8 => {
                dst.push((value % 256) as u8);
            },
            FieldType::U16 => {
                dst.push((value % 256) as u8);
                dst.push(((value / 256) % 256) as u8);
            },
            FieldType::U32 => {
                dst.push((value % 256) as u8);
                dst.push(((value / 256) % 256) as u8);
                dst.push(((value / 0x1_0000) % 256) as u8);
                dst.push((value / 0x100_0000) as u8);
            },
        }
    }
}

/// Builds the DVC header byte.
pub fn encode_header(pdu_type: u8, pdu_dependent: u8, channel_id_type: u8) -> (r: u8)
    requires
        pdu_type < 16,
        pdu_dependent < 4,
        channel_id_type < 4,
    ensures
        r == header_byte(pdu_type, pdu_dependent, channel_id_type),
{
    pdu_type * 16 + pdu_dependent * 4 + channel_id_type
}

/// A field read back from its bytes gives the value written, where the value
/// fits the field's width.
pub proof fn lemma_field_roundtrip(value: u32, t: FieldType, rest: Seq<u8>)
    requires
        value < field_limit(t),
    ensures
        field_bytes(value, t).len() == field_size(t),
        field_value(field_bytes(value, t) + rest, 0, t) == value,
{
    let b = field_bytes(value, t) + rest;
    match t {
        FieldType::U8 => {
            assert(((value % 256) as u8) as u32 == value) by (bit_vector)
                requires
                    value < 0x100,
            ;
        },
        FieldType::U16 => {
            assert(((value % 256) as u8) as u32 + 256 * (((value / 256) % 256) as u8) as u32
                == value) by (bit_vector)
                requires
                    value < 0x1_0000,
            ;
        },
        FieldType::U32 => {
            assert(((value % 256) as u8) as u32 + 0x100 * (((value / 256) % 256) as u8) as u32
                + 0x1_0000 * (((value / 0x1_0000) % 256) as u8) as u32 + 0x100_0000 * ((value
                / 0x100_0000) as u8) as u32 == value) by (bit_vector);
        },
    }
}

/// Writing back the value read from a field gives the field's bytes.
pub proof fn lemma_field_value_bytes(bytes: Seq<u8>, t: FieldType)
    requires
        field_size(t) <= bytes.len(),
    ensures
        field_value(bytes, 0, t) < field_limit(t),
        field_bytes(field_value(bytes, 0, t), t) == bytes.take(field_size(t) as int),
{
    let b0 = bytes[0];
    match t {
        FieldType::U8 => {
            assert(((b0 as u32) % 256) as u8 == b0) by (bit_vector);
        },
        FieldType::U16 => {
            let b1 = bytes[1];
            assert(((b0 as u32 + 256 * (b1 as u32)) % 256) as u8 == b0 && (((b0 as u32 + 256 * (
            b1 as u32)) / 256) % 256) as u8 == b1) by (bit_vector);
        },
        FieldType::U32 => {
            let b1 = bytes[1];
            let b2 = bytes[2];
            let b3 = bytes[3];
            let v: u32 = (b0 + 0x100 * b1 + 0x1_0000 * b2 + 0x100_0000 * b3) as u32;
            assert(v == b0 as u32 + 0x100 * (b1 as u32) + 0x1_0000 * (b2 as u32) + 0x100_0000 * (
            b3 as u32));
            assert((v % 256) as u8 == b0 && ((v / 256) % 256) as u8 == b1 && ((v / 0x1_0000)
                % 256) as u8 == b2 && (v / 0x100_0000) as u8 == b3) by (bit_vector)
                requires
                    v == b0 as u32 + 0x100 * (b1 as u32) + 0x1_0000 * (b2 as u32) + 0x100_0000 * (
                    b3 as u32),
            ;
        },
    }
    assert(field_bytes(field_value(bytes, 0, t), t) =~= bytes.take(field_size(t) as int));
}

/// The field widths and their header codes: `U8`, `U16` and `U32` take one,
/// two and four bytes and are announced by the codes 0, 1 and 2.
pub proof fn lemma_field_widths()
    ensures
        field_size(FieldType::U8) == 1 && field_bits(FieldType::U8) == 0,
        field_size(FieldType::U16) == 2 && field_bits(FieldType::U16) == 1,
        field_size(FieldType::U32) == 4 && field_bits(FieldType::U32) == 2,
{
}

/// Fields are little-endian: the bytes written for any value, least
/// significant first, add up to the value reduced to the field's width, and
/// the value read at `offset` is the little-endian sum of the bytes there.
pub proof fn lemma_field_little_endian(value: u32, bytes: Seq<u8>, offset: int)
    ensures
        field_bytes(value, FieldType::U8).len() == 1,
        field_bytes(value, FieldType::U8)[0] == value % 0x100,
        field_bytes(value, FieldType::U16).len() == 2,
        field_bytes(value, FieldType::U16)[0] + 0x100 * field_bytes(value, FieldType::U16)[1]
            == value % 0x1_0000,
        field_bytes(value, FieldType::U32).len() == 4,
        field_bytes(value, FieldType::U32)[0] + 0x100 * field_bytes(value, FieldType::U32)[1]
            + 0x1_0000 * field_bytes(value, FieldType::U32)[2] + 0x100_0000 * field_bytes(
            value,
            FieldType::U32,
        )[3] == value,
        0 <= offset && offset + 1 <= bytes.len() ==> field_value(bytes, offset, FieldType::U8)
            == bytes[offset],
        0 <= offset && offset + 2 <= bytes.len() ==> field_value(bytes, offset, FieldType::U16)
            == bytes[offset] + 0x100 * bytes[offset + 1],
        0 <= offset && offset + 4 <= bytes.len() ==> field_value(bytes, offset, FieldType::U32)
            == bytes[offset] + 0x100 * bytes[offset + 1] + 0x1_0000 * bytes[offset + 2]
            + 0x100_0000 * bytes[offset + 3],
{
    assert(((value % 256) as u8) as u32 == value % 0x100) by (bit_vector);
    assert(((value % 256) as u8) as u32 + 256 * (((value / 256) % 256) as u8) as u32 == value
        % 0x1_0000) by (bit_vector);
    assert(((value % 256) as u8) as u32 + 0x100 * (((value / 256) % 256) as u8) as u32 + 0x1_0000
        * (((value / 0x1_0000) % 256) as u8) as u32 + 0x100_0000 * ((value / 0x100_0000) as u8)
        as u32 == value) by (bit_vector);
    if 0 <= offset && offset + 4 <= bytes.len() {
        let b0 = bytes[offset];
        let b1 = bytes[offset + 1];
        let b2 = bytes[offset + 2];
        let b3 = bytes[offset + 3];
        assert(b0 as u32 + 0x100 * (b1 as u32) + 0x1_0000 * (b2 as u32) + 0x100_0000 * (b3 as u32)
            == b0 + 0x100 * b1 + 0x1_0000 * b2 + 0x100_0000 * b3);
    }
}

/// The header byte keeps its three parts apart: `Cmd`, `Sp` and `cbChId` can
/// each be read back from it.
pub proof fn lemma_header_parts(pdu_type: u8, pdu_dependent: u8, channel_id_type: u8)
    requires
        pdu_type < 16,
        pdu_dependent < 4,
        channel_id_type < 4,
    ensures
        header_byte(pdu_type, pdu_dependent, channel_id_type) / 16 == pdu_type,
        (header_byte(pdu_type, pdu_dependent, channel_id_type) / 4) % 4 == pdu_dependent,
        header_byte(pdu_type, pdu_dependent, channel_id_type) % 4 == channel_id_type,
{
}

} // verus!
