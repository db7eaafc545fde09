//! `DYNVC_DATA_FIRST`: the first PDU of a message sent in several parts over a
//! dynamic virtual channel. It carries the channel id and the message's total
//! length; the data that follows it is handled by the caller.
use vstd::prelude::*;

use crate::dvc::{
    encode_header, field_bytes, field_bits, field_limit, field_size, field_value, header_byte,
    lemma_field_little_endian, lemma_field_roundtrip, lemma_header_parts, lemma_field_widths, FieldType, PduErrorKind, HEADER_SIZE, PDU_TYPE_DATA_FIRST,
    PDU_WITH_DATA_MAX_SIZE,
};

verus! {

#[derive(Debug, Clone, PartialEq, Eq, Structural)]
pub struct DataFirstPdu {
    pub channel_id_type: FieldType,
    pub channel_id: u32,
    pub total_data_size_type: FieldType,
    pub total_data_size: u32,
    pub data_size: usize,
}

/// Bytes of the two variable-size fields.
pub open spec fn fields_size(channel_id_type: FieldType, total_data_size_type: FieldType) -> nat {
    field_size(channel_id_type) + field_size(total_data_size_type)
}

/// The wire form that `encode` writes: header byte, channel id, total length.
pub open spec fn data_first_bytes(pdu: DataFirstPdu) -> Seq<u8> {
    seq![
        header_byte(
            PDU_TYPE_DATA_FIRST,
            field_bits(pdu.total_data_size_type),
            field_bits(pdu.channel_id_type),
        ),
    ] + field_bytes(pdu.channel_id, pdu.channel_id_type) + field_bytes(
        pdu.total_data_size,
        pdu.total_data_size_type,
    )
}

/// What `decode` makes of `src`, the bytes that follow the header, given the
/// two field widths from the header and `data_size`, the number of bytes of
/// the PDU after its header.
pub open spec fn data_first_decoded(
    src: Seq<u8>,
    channel_id_type: FieldType,
    total_data_size_type: FieldType,
    data_size: nat,
) -> Result<DataFirstPdu, PduErrorKind> {
    let id_size = field_size(channel_id_type);
    let total_size = field_size(total_data_size_type);
    if src.len() < id_size {
        Err(
            PduErrorKind::NotEnoughBytes {
                received: src.len() as usize,
                expected: id_size as usize,
            },
        )
    } else if src.len() < id_size + total_size {
        Err(
            PduErrorKind::NotEnoughBytes {
                received: (src.len() - id_size) as usize,
                expected: total_size as usize,
            },
        )
    } else {
        let channel_id = field_value(src, 0, channel_id_type);
        let total_data_size = field_value(src, id_size as int, total_data_size_type);
        let payload = data_size - (id_size + total_size);
        if total_data_size < payload {
            Err(
                PduErrorKind::NotEnoughBytes {
                    received: total_data_size as usize,
                    expected: payload as usize,
                },
            )
        } else if payload > PDU_WITH_DATA_MAX_SIZE - (HEADER_SIZE + id_size + total_size) {
            Err(
                PduErrorKind::InvalidMessage {
                    field: "DvcDataLength",
                    reason: "data size exceeds the maximum",
                },
            )
        } else {
            Ok(
                DataFirstPdu {
                    channel_id_type,
                    channel_id,
                    total_data_size_type,
                    total_data_size,
                    data_size: payload as usize,
                },
            )
        }
    }
}

impl DataFirstPdu {
    /// Name of the PDU.
    pub const NAME: &'static str = "DvcDataFirstPdu";

    /// Decodes the fields that follow the DVC header. `data_size` is the
    /// number of bytes of the PDU after its header; what is left of it after
    /// the two fields is the size of the data carried by this PDU.
    pub fn decode(
        src: &[u8],
        channel_id_type: FieldType,
        total_data_size_type: FieldType,
        data_size: usize,
    ) -> (res: Result<DataFirstPdu, PduErrorKind>)
        requires
            data_size >= fields_size(channel_id_type, total_data_size_type),
        ensures
            res == data_first_decoded(
                src@,
                channel_id_type,
                total_data_size_type,
                data_size as nat,
            ),
            res matches Ok(p) ==> p.data_size <= p.total_data_size,
            res matches Ok(p) ==> p.data_size + fields_size(channel_id_type, total_data_size_type)
                == data_size,
            res matches Ok(p) ==> HEADER_SIZE + data_size <= PDU_WITH_DATA_MAX_SIZE,
    {
        let channel_id = match channel_id_type.read_according_to_type(src, 0) {
            Ok(v) => v,
            Err(e) => return Err(e),
        };
        let id_size = channel_id_type.size();
        let total_data_size = match total_data_size_type.read_according_to_type(src, id_size) {
            Ok(v) => v,
            Err(e) => return Err(e),
        };
        let fields = id_size + total_data_size_type.size();
        let payload = data_size - fields;
        if (total_data_size as usize) < payload {
            return Err(
                PduErrorKind::NotEnoughBytes { received: total_data_size as usize, expected: payload },
            );
        }
        let expected_max_data_size = PDU_WITH_DATA_MAX_SIZE - (HEADER_SIZE + fields);
        if payload > expected_max_data_size {
            return Err(
                PduErrorKind::InvalidMessage {
                    field: "DvcDataLength",
                    reason: "data size exceeds the maximum",
                },
            );
        }
        Ok(
            DataFirstPdu {
                channel_id_type,
                channel_id,
                total_data_size_type,
                total_data_size,
                data_size: payload,
            },
        )
    }

    /// Appends the header byte, the channel id and the total data size to
    /// `dst`. The data itself is not written.
    pub fn encode(&self, dst: &mut Vec<u8>)
        ensures
            final(dst)@ == old(dst)@ + data_first_bytes(*self),
    {
        let header = encode_header(
            PDU_TYPE_DATA_FIRST,
            self.total_data_size_type.bits(),
            self.channel_id_type.bits(),
        );
        dst.push(header);
        self.channel_id_type.write_according_to_type(dst, self.channel_id);
        self.total_data_size_type.write_according_to_type(dst, self.total_data_size);
        assert(dst@ =~= old(dst)@ + data_first_bytes(*self));
    }

    /// Name of the PDU: `DvcDataFirstPdu`.
    pub fn name(&self) -> (r: &'static str)
        ensures
            r@ == Self::NAME@,
    {
        Self::NAME
    }

    /// Number of bytes that `encode` writes.
    pub fn size(&self) -> (r: usize)
        ensures
            r == HEADER_SIZE + fields_size(self.channel_id_type, self.total_data_size_type),
            r == data_first_bytes(*self).len(),
    {
        HEADER_SIZE + self.channel_id_type.size() + self.total_data_size_type.size()
    }
}

/// What `encode` writes, for any PDU: one header byte whose high four bits
/// hold the `DYNVC_DATA_FIRST` type, next two bits the width code of the
/// total size and low two bits the width code of the channel id; then the
/// channel id and the total data size, each as a little-endian field of its
/// width, truncated to it.
pub proof fn lemma_data_first_layout(pdu: DataFirstPdu)
    ensures
        data_first_bytes(pdu).len() == HEADER_SIZE + fields_size(
            pdu.channel_id_type,
            pdu.total_data_size_type,
        ),
        data_first_bytes(pdu)[0] / 16 == PDU_TYPE_DATA_FIRST,
        (data_first_bytes(pdu)[0] / 4) % 4 == field_bits(pdu.total_data_size_type),
        data_first_bytes(pdu)[0] % 4 == field_bits(pdu.channel_id_type),
        field_value(data_first_bytes(pdu), 1, pdu.channel_id_type) == pdu.channel_id as int % field_limit(
            pdu.channel_id_type,
        ),
        field_value(
            data_first_bytes(pdu),
            1 + field_size(pdu.channel_id_type) as int,
            pdu.total_data_size_type,
        ) == pdu.total_data_size as int % field_limit(pdu.total_data_size_type),
{
    let ct = pdu.channel_id_type;
    let tt = pdu.total_data_size_type;
    let bytes = data_first_bytes(pdu);
    let id_bytes = field_bytes(pdu.channel_id, ct);
    let total_bytes = field_bytes(pdu.total_data_size, tt);
    lemma_field_widths();
    lemma_header_parts(PDU_TYPE_DATA_FIRST, field_bits(tt), field_bits(ct));
    lemma_field_little_endian(pdu.channel_id, bytes, 1);
    lemma_field_little_endian(pdu.total_data_size, bytes, 1 + field_size(ct) as int);
    assert forall|k: int| 0 <= k < field_size(ct) implies bytes[1 + k] == id_bytes[k] by {}
    assert forall|k: int| 0 <= k < field_size(tt) implies bytes[1 + field_size(ct) + k]
        == total_bytes[k] by {}
}

/// The checks that `decode` makes, for any input: it succeeds only when both
/// fields are there, and then returns the field widths it was given, the
/// channel id and total size read from the input, and as data size what is
/// left of `data_size` after the two fields; that data size never exceeds the
/// total data size, and the PDU it describes never exceeds the maximum PDU
/// size. Data larger than the total size is refused as `NotEnoughBytes`, a PDU
/// over the maximum as `InvalidMessage`.
pub proof fn lemma_data_first_decode_checks(
    src: Seq<u8>,
    channel_id_type: FieldType,
    total_data_size_type: FieldType,
    data_size: nat,
)
    requires
        data_size >= fields_size(channel_id_type, total_data_size_type),
    ensures
        data_first_decoded(src, channel_id_type, total_data_size_type, data_size) is Ok ==> {
            let p = data_first_decoded(
                src,
                channel_id_type,
                total_data_size_type,
                data_size,
            )->Ok_0;
            &&& src.len() >= fields_size(channel_id_type, total_data_size_type)
            &&& p.channel_id_type == channel_id_type
            &&& p.total_data_size_type == total_data_size_type
            &&& p.channel_id == field_value(src, 0, channel_id_type)
            &&& p.total_data_size == field_value(src, field_size(channel_id_type) as int, total_data_size_type)
            &&& p.data_size + fields_size(channel_id_type, total_data_size_type) == data_size
            &&& p.data_size <= p.total_data_size
            &&& HEADER_SIZE + data_size <= PDU_WITH_DATA_MAX_SIZE
        },
        src.len() < fields_size(channel_id_type, total_data_size_type) ==> data_first_decoded(
            src,
            channel_id_type,
            total_data_size_type,
            data_size,
        ) is Err,
        src.len() >= fields_size(channel_id_type, total_data_size_type) && data_size
            - fields_size(channel_id_type, total_data_size_type) > field_value(
            src,
            field_size(channel_id_type) as int,
            total_data_size_type,
        ) ==> data_first_decoded(src, channel_id_type, total_data_size_type, data_size) == Err::<
            DataFirstPdu,
            PduErrorKind,
        >(
            PduErrorKind::NotEnoughBytes {
                received: field_value(
                    src,
                    field_size(channel_id_type) as int,
                    total_data_size_type,
                ) as usize,
                expected: (data_size - fields_size(channel_id_type, total_data_size_type)) as usize,
            },
        ),
        src.len() >= fields_size(channel_id_type, total_data_size_type) && data_size
            - fields_size(channel_id_type, total_data_size_type) <= field_value(
            src,
            field_size(channel_id_type) as int,
            total_data_size_type,
        ) && HEADER_SIZE + data_size > PDU_WITH_DATA_MAX_SIZE ==> data_first_decoded(
            src,
            channel_id_type,
            total_data_size_type,
            data_size,
        ) is Err && data_first_decoded(
            src,
            channel_id_type,
            total_data_size_type,
            data_size,
        )->Err_0 is InvalidMessage,
{
}

/// A PDU whose fields fit their widths, and whose data size neither exceeds
/// its total data size nor makes the PDU larger than the maximum, is decoded
/// from its own encoding (the bytes after the header, followed by anything)
/// exactly as it was; its header byte carries the PDU type and both widths.
pub proof fn lemma_data_first_roundtrip(pdu: DataFirstPdu, rest: Seq<u8>)
    requires
        pdu.channel_id < field_limit(pdu.channel_id_type),
        pdu.total_data_size < field_limit(pdu.total_data_size_type),
        pdu.data_size <= pdu.total_data_size,
        pdu.data_size + HEADER_SIZE + fields_size(pdu.channel_id_type, pdu.total_data_size_type)
            <= PDU_WITH_DATA_MAX_SIZE,
    ensures
        data_first_bytes(pdu).len() == HEADER_SIZE + fields_size(
            pdu.channel_id_type,
            pdu.total_data_size_type,
        ),
        data_first_bytes(pdu)[0] / 16 == PDU_TYPE_DATA_FIRST,
        (data_first_bytes(pdu)[0] / 4) % 4 == field_bits(pdu.total_data_size_type),
        data_first_bytes(pdu)[0] % 4 == field_bits(pdu.channel_id_type),
        data_first_decoded(
            data_first_bytes(pdu).skip(HEADER_SIZE as int) + rest,
            pdu.channel_id_type,
            pdu.total_data_size_type,
            fields_size(pdu.channel_id_type, pdu.total_data_size_type) + pdu.data_size as nat,
        ) == Ok::<DataFirstPdu, PduErrorKind>(pdu),
{
    let ct = pdu.channel_id_type;
    let tt = pdu.total_data_size_type;
    let id_bytes = field_bytes(pdu.channel_id, ct);
    let total_bytes = field_bytes(pdu.total_data_size, tt);
    lemma_header_parts(PDU_TYPE_DATA_FIRST, field_bits(tt), field_bits(ct));
    lemma_field_roundtrip(pdu.channel_id, ct, total_bytes + rest);
    lemma_field_roundtrip(pdu.total_data_size, tt, rest);
    let src = data_first_bytes(pdu).skip(HEADER_SIZE as int) + rest;
    assert(src =~= id_bytes + (total_bytes + rest));
    let id_size = field_size(ct);
    assert forall|k: int| 0 <= k < field_size(tt) implies src[id_size + k] == (total_bytes
        + rest)[k] by {}
    assert(field_value(src, id_size as int, tt) == field_value(total_bytes + rest, 0, tt));
}

} // verus!
