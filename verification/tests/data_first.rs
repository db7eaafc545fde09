use lib::dvc::data_first::DataFirstPdu;
use lib::dvc::{FieldType, PduErrorKind, PDU_WITH_DATA_MAX_SIZE};

const DVC_TEST_CHANNEL_ID_U8: u32 = 0x03;
const DVC_TEST_DATA_LENGTH: u32 = 0x0000_0C7B;

const DVC_FULL_DATA_FIRST_BUFFER_SIZE: usize = 16;
const DVC_DATA_FIRST_PREFIX: [u8; 4] = [0x24, 0x03, 0x7b, 0x0c];
const DVC_DATA_FIRST_BUFFER: [u8; 12] = [0x71, 0x71, 0x71, 0x71, 0x71, 0x71, 0x71, 0x71, 0x71, 0x71, 0x71, 0x71];

const DVC_DATA_FIRST_WITH_INVALID_TOTAL_MESSAGE_SIZE_BUFFER_SIZE: usize = 0x06;
const DVC_DATA_FIRST_WITH_INVALID_TOTAL_MESSAGE_SIZE_BUFFER: [u8;
    DVC_DATA_FIRST_WITH_INVALID_TOTAL_MESSAGE_SIZE_BUFFER_SIZE] = [0x03, 0x03, 0x71, 0x71, 0x71, 0x71];

const DVC_INVALID_DATA_MESSAGE_BUFFER: [u8; PDU_WITH_DATA_MAX_SIZE] = [0x77; PDU_WITH_DATA_MAX_SIZE];

const DVC_TEST_HEADER_SIZE: usize = 0x01;

fn dvc_full_data_first_buffer() -> Vec<u8> {
    let mut result = DVC_DATA_FIRST_PREFIX.to_vec();
    result.extend(DVC_DATA_FIRST_BUFFER);
    result
}

fn dvc_data_first() -> DataFirstPdu {
    DataFirstPdu {
        channel_id_type: FieldType::U8,
        channel_id: DVC_TEST_CHANNEL_ID_U8,
        total_data_size_type: FieldType::U16,
        total_data_size: DVC_TEST_DATA_LENGTH,
        data_size: DVC_DATA_FIRST_BUFFER.len(),
    }
}

fn encode_vec(pdu: &DataFirstPdu) -> Vec<u8> {
    let mut buffer = Vec::new();
    pdu.encode(&mut buffer);
    buffer
}

#[test]
fn from_buffer_parsing_for_dvc_data_first_pdu_with_invalid_message_size_fails() {
    let cur = DVC_INVALID_DATA_MESSAGE_BUFFER.as_ref();
    match DataFirstPdu::decode(cur, FieldType::U8, FieldType::U16, PDU_WITH_DATA_MAX_SIZE) {
        Err(e) if matches!(e, PduErrorKind::InvalidMessage { .. }) => (),
        res => panic!("Expected InvalidMessage error, got: {res:?}"),
    };
}

#[test]
fn from_buffer_parsing_for_dvc_data_first_pdu_with_invalid_total_message_size_fails() {
    let cur = DVC_DATA_FIRST_WITH_INVALID_TOTAL_MESSAGE_SIZE_BUFFER.as_ref();
    match DataFirstPdu::decode(
        cur,
        FieldType::U8,
        FieldType::U8,
        DVC_DATA_FIRST_WITH_INVALID_TOTAL_MESSAGE_SIZE_BUFFER_SIZE,
    ) {
        Err(e) if matches!(e, PduErrorKind::NotEnoughBytes { .. }) => (),
        res => panic!("Expected NotEnoughBytes error, got: {res:?}"),
    };
}

#[test]
fn from_buffer_correct_parses_dvc_data_first_pdu() {
    let full = dvc_full_data_first_buffer();
    let cur = &full[1..];
    assert_eq!(
        dvc_data_first(),
        DataFirstPdu::decode(
            cur,
            FieldType::U8,
            FieldType::U16,
            DVC_FULL_DATA_FIRST_BUFFER_SIZE - DVC_TEST_HEADER_SIZE
        )
        .unwrap(),
    );
}

#[test]
fn to_buffer_correct_serializes_dvc_data_first_pdu() {
    let data_first = &dvc_data_first();

    let buffer = encode_vec(data_first);

    assert_eq!(DVC_DATA_FIRST_PREFIX.as_ref(), buffer.as_slice());
}

#[test]
fn buffer_length_is_correct_for_dvc_data_first_pdu() {
    let data_first = &dvc_data_first();
    let expected_buf_len = DVC_DATA_FIRST_PREFIX.len();

    let len = data_first.size();

    assert_eq!(expected_buf_len, len);
}

// Tests of this library's own.

#[test]
fn data_first_name() {
    assert_eq!(dvc_data_first().name(), "DvcDataFirstPdu");
}

#[test]
fn encode_decode_roundtrip_with_wide_fields() {
    let pdu = DataFirstPdu {
        channel_id_type: FieldType::U32,
        channel_id: 0x1234_5678,
        total_data_size_type: FieldType::U16,
        total_data_size: 0x0639,
        data_size: 0x0639,
    };
    let bytes = encode_vec(&pdu);
    assert_eq!(bytes, vec![0x26, 0x78, 0x56, 0x34, 0x12, 0x39, 0x06]);
    assert_eq!(bytes.len(), pdu.size());
    let mut rest = bytes[1..].to_vec();
    rest.extend([0xAA; 4]);
    let decoded = DataFirstPdu::decode(&rest, FieldType::U32, FieldType::U16, 6 + 0x0639).unwrap();
    assert_eq!(decoded, pdu);
}

#[test]
fn encode_truncates_values_to_field_width() {
    let pdu = DataFirstPdu {
        channel_id_type: FieldType::U8,
        channel_id: 0x1FF,
        total_data_size_type: FieldType::U32,
        total_data_size: 0x0102_0304,
        data_size: 0,
    };
    assert_eq!(encode_vec(&pdu), vec![0x28, 0xFF, 0x04, 0x03, 0x02, 0x01]);
}

#[test]
fn decode_reports_missing_channel_id_bytes() {
    let res = DataFirstPdu::decode(&[0x01], FieldType::U16, FieldType::U8, 3);
    assert_eq!(res, Err(PduErrorKind::NotEnoughBytes { received: 1, expected: 2 }));
}

#[test]
fn decode_reports_missing_total_size_bytes() {
    let res = DataFirstPdu::decode(&[0x01, 0x02, 0x03], FieldType::U8, FieldType::U32, 5);
    assert_eq!(res, Err(PduErrorKind::NotEnoughBytes { received: 2, expected: 4 }));
}

#[test]
fn decode_accepts_largest_data_size() {
    // Header, one byte of channel id and two of total size leave 1596 bytes.
    let res = DataFirstPdu::decode(&[0x05, 0xFF, 0xFF], FieldType::U8, FieldType::U16, 3 + 1596).unwrap();
    assert_eq!(res.channel_id, 5);
    assert_eq!(res.total_data_size, 0xFFFF);
    assert_eq!(res.data_size, 1596);
    let res = DataFirstPdu::decode(&[0x05, 0xFF, 0xFF], FieldType::U8, FieldType::U16, 3 + 1597);
    assert!(matches!(res, Err(PduErrorKind::InvalidMessage { .. })));
}

#[test]
fn field_type_sizes_and_bits() {
    assert_eq!(FieldType::U8.size(), 1);
    assert_eq!(FieldType::U16.size(), 2);
    assert_eq!(FieldType::U32.size(), 4);
    assert_eq!(FieldType::U8.bits(), 0);
    assert_eq!(FieldType::U16.bits(), 1);
    assert_eq!(FieldType::U32.bits(), 2);
}

#[test]
fn field_read_and_write() {
    let mut buf = vec![0xEE];
    FieldType::U16.write_according_to_type(&mut buf, 0xABCD);
    assert_eq!(buf, vec![0xEE, 0xCD, 0xAB]);
    assert_eq!(FieldType::U16.read_according_to_type(&buf, 1), Ok(0xABCD));
    assert_eq!(
        FieldType::U32.read_according_to_type(&buf, 1),
        Err(PduErrorKind::NotEnoughBytes { received: 2, expected: 4 })
    );
}

#[test]
fn header_byte_parts() {
    assert_eq!(lib::dvc::encode_header(2, 1, 0), 0x24);
    assert_eq!(lib::dvc::encode_header(2, 2, 3), 0x2B);
}
