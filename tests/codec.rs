use plc4rust::checksum::{crc16, lrc8};
use plc4rust::modbus::{
    create_request, respond, AddressQuantityValues, AddressValue, ByteValues, DriverType, ModbusADU,
    ModbusADUOptions, ModbusAsciiADU, ModbusErrorCode, ModbusPDU, ModbusPDUError, ModbusPDUOption,
    ModbusPDUReadCoilsRequest, ModbusPDUReadCoilsResponse, ModbusPDUReadFifoQueueResponse,
    ModbusPDUReadFileRecordRequest, ModbusPDUReadFileRecordRequestItem, ModbusPDUReadFileRecordResponse,
    ModbusPDUReadFileRecordResponseItem, ModbusRtuADU, ModbusTcpADU,
};
use plc4rust::modbus::{ModbusDeviceInformationLevel, ModbusDeviceInformationMoreFollows};
use plc4rust::read_buffer::ReadBuffer;
use plc4rust::write_buffer::WriteBuffer;
use plc4rust::{DecodeError, Discriminant, EncodeError, Endianess, Message};

fn encode_pdu(pdu: &ModbusPDU) -> Vec<u8> {
    let mut w = WriteBuffer::new(Endianess::BigEndian, vec![]);
    let r = pdu.serialize(&mut w);
    assert!(r.is_ok());
    w.writer
}

fn decode_pdu(bytes: &[u8], response: bool) -> Result<ModbusPDU, DecodeError> {
    let mut r = ReadBuffer::new(Endianess::BigEndian, bytes);
    ModbusPDU::parse(&mut r, ModbusPDUOption { bit_response: response })
}

fn encode_adu(adu: &ModbusADU) -> Vec<u8> {
    let mut w = WriteBuffer::new(Endianess::BigEndian, vec![]);
    let r = adu.serialize(&mut w);
    assert!(r.is_ok());
    w.writer
}

fn decode_adu(bytes: &[u8], driver_type: DriverType, response: bool) -> Result<ModbusADU, DecodeError> {
    let mut r = ReadBuffer::new(Endianess::BigEndian, bytes);
    ModbusADU::parse(&mut r, ModbusADUOptions { driver_type, response })
}

fn rtu_frame() -> ModbusADU {
    ModbusADU::ModbusRtuADU(ModbusRtuADU {
        address: 1,
        pdu: ModbusPDU::ModbusPDUReadCoilsResponse(ModbusPDUReadCoilsResponse { value: vec![0xCD, 0x6B] }),
    })
}

#[test]
fn read_coils_response_counts_its_bytes() {
    let pdu = ModbusPDU::ModbusPDUReadCoilsResponse(ModbusPDUReadCoilsResponse { value: vec![1, 2, 3] });
    let bytes = encode_pdu(&pdu);
    assert_eq!(bytes, vec![0x02, 3, 1, 2, 3]);
    assert_eq!(bytes.len(), 5);
    assert_eq!(bytes.len() - 1, 4);
    assert_eq!(pdu.get_length_in_bits(), 40);
    assert_eq!(decode_pdu(&bytes, true), Ok(pdu));
}

#[test]
fn byte_count_is_length_of_value() {
    let r = ModbusPDUReadCoilsResponse { value: vec![9; 17] };
    assert_eq!(r.byte_count(), 17);
    let bytes = encode_pdu(&ModbusPDU::ModbusPDUReadCoilsResponse(r.clone()));
    assert_eq!(bytes[1], 17);
    match decode_pdu(&bytes, true) {
        Ok(ModbusPDU::ModbusPDUReadCoilsResponse(d)) => assert_eq!(d.value.len(), 17),
        other => panic!("unexpected {:?}", other),
    }
}

#[test]
fn empty_byte_values_round_trip() {
    let pdu = ModbusPDU::ModbusPDUReportServerIdResponse(ByteValues { value: vec![] });
    let bytes = encode_pdu(&pdu);
    assert_eq!(bytes, vec![0x22, 0]);
    assert_eq!(decode_pdu(&bytes, true), Ok(pdu));
}

#[test]
fn largest_byte_count_and_one_more() {
    let ok = ModbusPDU::ModbusPDUReadHoldingRegistersResponse(ByteValues { value: vec![7; 255] });
    let bytes = encode_pdu(&ok);
    assert_eq!(bytes.len(), 257);
    assert_eq!(decode_pdu(&bytes, true), Ok(ok));

    let too_long = ModbusPDU::ModbusPDUReadHoldingRegistersResponse(ByteValues { value: vec![7; 256] });
    let mut w = WriteBuffer::new(Endianess::BigEndian, vec![]);
    assert_eq!(too_long.serialize(&mut w), Err(EncodeError::ValueOutOfRange));
    assert!(w.writer.is_empty());
}

#[test]
fn unknown_function_code_is_refused() {
    assert_eq!(
        decode_pdu(&[0xFE, 0, 0], false),
        Err(DecodeError::UnknownDiscriminant(Discriminant::Message { error_flag: false, function_code: 0x7F, response: false }))
    );
    assert_eq!(
        decode_pdu(&[0x0E], true),
        Err(DecodeError::UnknownDiscriminant(Discriminant::Message { error_flag: false, function_code: 0x07, response: true }))
    );
}

#[test]
fn exception_response_round_trip() {
    let pdu = ModbusPDU::ModbusPDUError(ModbusPDUError {
        function_code: 0x03,
        exception_code: ModbusErrorCode::ILLEGAL_DATA_ADDRESS,
    });
    let bytes = encode_pdu(&pdu);
    assert_eq!(bytes, vec![0x07, 2]);
    assert_eq!(decode_pdu(&bytes, false), Ok(pdu.clone()));
    assert_eq!(decode_pdu(&bytes, true), Ok(pdu));
}

#[test]
fn unmapped_exception_code_is_refused() {
    assert_eq!(
        decode_pdu(&[0x05, 9], true),
        Err(DecodeError::UnknownDiscriminant(Discriminant::Message { error_flag: true, function_code: 0x02, response: true }))
    );
    assert_eq!(
        decode_pdu(&[0x07, 9], false),
        Err(DecodeError::UnknownDiscriminant(Discriminant::Message { error_flag: true, function_code: 0x03, response: false }))
    );
}

#[test]
fn exception_function_code_must_fit_seven_bits() {
    let pdu = ModbusPDU::ModbusPDUError(ModbusPDUError {
        function_code: 0x80,
        exception_code: ModbusErrorCode::ACKNOWLEDGE,
    });
    let mut w = WriteBuffer::new(Endianess::BigEndian, vec![]);
    assert_eq!(pdu.serialize(&mut w), Err(EncodeError::ValueOutOfRange));
}

#[test]
fn truncated_pdus_are_refused() {
    assert_eq!(decode_pdu(&[], false), Err(DecodeError::TruncatedInput));
    assert_eq!(decode_pdu(&[0x02, 0, 3, 0], false), Err(DecodeError::TruncatedInput));
    assert_eq!(decode_pdu(&[0x02, 3, 1, 2], true), Err(DecodeError::TruncatedInput));
    assert_eq!(decode_pdu(&[0x07], true), Err(DecodeError::TruncatedInput));
}

#[test]
fn write_multiple_coils_round_trip() {
    let pdu = ModbusPDU::ModbusPDUWriteMultipleCoilsRequest(AddressQuantityValues {
        starting_address: 0x13,
        quantity: 10,
        value: vec![0xCD, 0x01],
    });
    let bytes = encode_pdu(&pdu);
    assert_eq!(bytes, vec![0x1E, 0x00, 0x13, 0x00, 0x0A, 2, 0xCD, 0x01]);
    assert_eq!(decode_pdu(&bytes, false), Ok(pdu));
}

#[test]
fn write_single_coil_is_symmetric() {
    let req = ModbusPDU::ModbusPDUWriteSingleCoilRequest(AddressValue { address: 0xAC, value: 0xFF00 });
    let bytes = encode_pdu(&req);
    assert_eq!(bytes, vec![0x0A, 0x00, 0xAC, 0xFF, 0x00]);
    assert_eq!(decode_pdu(&bytes, false), Ok(req));
    let resp = ModbusPDU::ModbusPDUWriteSingleCoilResponse(AddressValue { address: 0xAC, value: 0xFF00 });
    assert_eq!(decode_pdu(&bytes, true), Ok(resp));
}

#[test]
fn requests_without_body() {
    let pdu = ModbusPDU::ModbusPDUReportServerIdRequest;
    let bytes = encode_pdu(&pdu);
    assert_eq!(bytes, vec![0x22]);
    assert_eq!(decode_pdu(&bytes, false), Ok(pdu));
    let pdu = ModbusPDU::ModbusPDUGetComEventCounterRequest;
    assert_eq!(encode_pdu(&pdu), vec![0x16]);
    assert_eq!(decode_pdu(&[0x16], false), Ok(pdu));
}

#[test]
fn fifo_counts_are_derived() {
    let pdu = ModbusPDU::ModbusPDUReadFifoQueueResponse(ModbusPDUReadFifoQueueResponse {
        fifo_value: vec![0x01B8, 0x1284],
    });
    let bytes = encode_pdu(&pdu);
    assert_eq!(bytes, vec![0x30, 0x00, 0x06, 0x00, 0x02, 0x01, 0xB8, 0x12, 0x84]);
    assert_eq!(pdu.get_length_in_bits(), 8 * 9);
    assert_eq!(decode_pdu(&bytes, true), Ok(pdu));
}

#[test]
fn fifo_count_disagreeing_with_byte_count_is_refused() {
    assert_eq!(
        decode_pdu(&[0x30, 0x00, 0x08, 0x00, 0x02, 0x01, 0xB8, 0x12, 0x84], true),
        Err(DecodeError::LengthMismatch)
    );
}

#[test]
fn file_record_request_round_trip() {
    let item = ModbusPDUReadFileRecordRequestItem {
        reference_type: 6,
        file_number: 4,
        record_number: 1,
        record_length: 2,
    };
    let pdu = ModbusPDU::ModbusPDUReadFileRecordRequest(ModbusPDUReadFileRecordRequest { items: vec![item, item] });
    let bytes = encode_pdu(&pdu);
    assert_eq!(bytes, vec![0x28, 14, 6, 0, 4, 0, 1, 0, 2, 6, 0, 4, 0, 1, 0, 2]);
    assert_eq!(decode_pdu(&bytes, false), Ok(pdu));
}

#[test]
fn file_record_byte_count_not_whole_items_is_refused() {
    assert_eq!(decode_pdu(&[0x28, 3, 6, 0, 4], false), Err(DecodeError::LengthMismatch));
}

#[test]
fn tcp_protocol_identifier_must_be_zero() {
    assert_eq!(
        decode_adu(&[0, 1, 0, 5, 1, 4, 0, 3, 0, 1], DriverType::MODBUS_TCP, false),
        Err(DecodeError::InvalidConstant)
    );
    let adu = ModbusADU::ModbusTcpADU(ModbusTcpADU {
        transaction_identifier: 1,
        protocol_identifier: 5,
        unit_identifier: 1,
        pdu: ModbusPDU::ModbusPDUReportServerIdRequest,
    });
    let mut w = WriteBuffer::new(Endianess::BigEndian, vec![]);
    assert_eq!(adu.serialize(&mut w), Err(EncodeError::ValueOutOfRange));
}

#[test]
fn tcp_length_field_value() {
    let tcp = ModbusTcpADU {
        transaction_identifier: 1,
        protocol_identifier: 0,
        unit_identifier: 1,
        pdu: ModbusPDU::ModbusPDUReadCoilsRequest(ModbusPDUReadCoilsRequest { starting_address: 0, quantity: 1 }),
    };
    assert_eq!(tcp.length(), 6);
}

#[test]
fn crc16_known_value() {
    assert_eq!(crc16(&[0x01, 0x03, 0x00, 0x00, 0x00, 0x0A]), 0xCDC5);
    assert_eq!(crc16(&[]), 0xFFFF);
}

#[test]
fn lrc8_known_value() {
    assert_eq!(lrc8(&[0x01, 0x03, 0x00, 0x00, 0x00, 0x0A]), 0xF2);
    assert_eq!(lrc8(&[]), 0);
}

#[test]
fn rtu_frame_carries_crc_low_byte_first() {
    let adu = ModbusADU::ModbusRtuADU(ModbusRtuADU {
        address: 1,
        pdu: ModbusPDU::ModbusPDUReadHoldingRegistersRequest(plc4rust::modbus::AddressQuantity {
            starting_address: 0,
            quantity: 10,
        }),
    });
    let bytes = encode_adu(&adu);
    assert_eq!(bytes, vec![0x01, 0x06, 0x00, 0x00, 0x00, 0x0A, 0x09, 0xCD]);
    assert_eq!(adu.get_length_in_bits(), 64);
    assert_eq!(decode_adu(&bytes, DriverType::MODBUS_RTU, false), Ok(adu));
}

#[test]
fn rtu_corrupted_crc_is_refused() {
    let adu = rtu_frame();
    let bytes = encode_adu(&adu);
    assert_eq!(decode_adu(&bytes, DriverType::MODBUS_RTU, true), Ok(adu));
    let mut bad = bytes.clone();
    let last = bad.len() - 1;
    bad[last] ^= 0x01;
    assert_eq!(decode_adu(&bad, DriverType::MODBUS_RTU, true), Err(DecodeError::ChecksumMismatch));
}

#[test]
fn rtu_every_single_bit_flip_is_detected() {
    let bytes = encode_adu(&rtu_frame());
    for i in 0..bytes.len() {
        for b in 0..8 {
            let mut bad = bytes.clone();
            bad[i] ^= 1 << b;
            assert_eq!(decode_adu(&bad, DriverType::MODBUS_RTU, true), Err(DecodeError::ChecksumMismatch));
        }
    }
}

#[test]
fn ascii_round_trip_and_bit_flips() {
    let adu = ModbusADU::ModbusAsciiADU(ModbusAsciiADU {
        address: 0x11,
        pdu: ModbusPDU::ModbusPDUReadHoldingRegistersRequest(plc4rust::modbus::AddressQuantity {
            starting_address: 0x006B,
            quantity: 3,
        }),
    });
    let bytes = encode_adu(&adu);
    assert_eq!(bytes, vec![0x11, 0x06, 0x00, 0x6B, 0x00, 0x03, 0x7B]);
    assert_eq!(decode_adu(&bytes, DriverType::MODBUS_ASCII, false), Ok(adu));
    for i in 0..bytes.len() {
        for b in 0..8 {
            let mut bad = bytes.clone();
            bad[i] ^= 1 << b;
            assert_eq!(decode_adu(&bad, DriverType::MODBUS_ASCII, false), Err(DecodeError::ChecksumMismatch));
        }
    }
}

#[test]
fn rtu_frame_with_extra_bytes_is_refused() {
    // address 1, report-server-id request, one stray byte, then a valid CRC of all three
    let body = [0x01u8, 0x22, 0x00];
    let c = crc16(&body);
    let frame = vec![0x01, 0x22, 0x00, (c % 256) as u8, (c / 256) as u8];
    assert_eq!(decode_adu(&frame, DriverType::MODBUS_RTU, false), Err(DecodeError::LengthMismatch));
}

#[test]
fn short_serial_frames_are_truncated() {
    assert_eq!(decode_adu(&[1, 2], DriverType::MODBUS_RTU, false), Err(DecodeError::TruncatedInput));
    assert_eq!(decode_adu(&[1], DriverType::MODBUS_ASCII, false), Err(DecodeError::TruncatedInput));
}

#[test]
fn create_request_encodes_read_coils() {
    let adu = create_request();
    assert_eq!(encode_adu(&adu), vec![0, 1, 0, 0, 1, 2, 0, 0, 0, 1]);
}

#[test]
fn server_answers_read_coils() {
    let response = respond(&create_request());
    let expected = ModbusADU::ModbusTcpADU(ModbusTcpADU {
        transaction_identifier: 1,
        protocol_identifier: 0,
        unit_identifier: 1,
        pdu: ModbusPDU::ModbusPDUReadCoilsResponse(ModbusPDUReadCoilsResponse { value: vec![1, 2, 3] }),
    });
    assert_eq!(response, Some(expected.clone()));
    assert_eq!(encode_adu(&expected), vec![0, 1, 0, 0, 1, 2, 3, 1, 2, 3]);
    assert_eq!(respond(&rtu_frame()), None);
}

#[test]
fn bits_are_read_least_significant_first() {
    let data = [0b1011_0101u8, 0xFF];
    let mut r = ReadBuffer::new(Endianess::BigEndian, &data);
    assert_eq!(r.read_bit(), Ok(true));
    assert_eq!(r.read_u_n(3), Ok(0b010));
    assert_eq!(r.read_u_n(8), Ok(0xFB));
    assert_eq!(r.read_u_n(5), Err(DecodeError::TruncatedInput));
    assert_eq!(r.read_u_n(4), Ok(0xF));
}

#[test]
fn sixty_four_bit_field_round_trip() {
    let mut w = WriteBuffer::new(Endianess::BigEndian, vec![]);
    w.write_u_n(3, 0b101);
    w.write_u_n(64, 0x0123_4567_89AB_CDEF);
    w.write_u_n(5, 0b11011);
    assert_eq!(w.writer.len(), 9);
    let mut r = ReadBuffer::new(Endianess::BigEndian, &w.writer);
    assert_eq!(r.read_u_n(3), Ok(0b101));
    assert_eq!(r.read_u_n(64), Ok(0x0123_4567_89AB_CDEF));
    assert_eq!(r.read_u_n(5), Ok(0b11011));
}

#[test]
fn sixteen_bit_fields_follow_byte_order() {
    let mut w = WriteBuffer::new(Endianess::LittleEndian, vec![]);
    w.write_u16(0x1234);
    assert_eq!(w.writer, vec![0x34, 0x12]);
    let mut r = ReadBuffer::new(Endianess::LittleEndian, &w.writer);
    assert_eq!(r.read_u16(), Ok(0x1234));
    let mut w = WriteBuffer::new(Endianess::BigEndian, vec![]);
    w.write_u16(0x1234);
    assert_eq!(w.writer, vec![0x12, 0x34]);
}

#[test]
fn write_file_record_item_with_odd_data_is_refused() {
    let item = plc4rust::modbus::ModbusPDUWriteFileRecordResponseItem {
        reference_type: 6,
        file_number: 1,
        record_number: 2,
        record_data: vec![1, 2, 3],
    };
    let mut w = WriteBuffer::new(Endianess::BigEndian, vec![]);
    assert_eq!(item.serialize(&mut w), Err(EncodeError::ValueOutOfRange));
}

#[test]
fn enumeration_tags() {
    assert_eq!(DriverType::from_tag(2), Some(DriverType::MODBUS_RTU));
    assert_eq!(DriverType::from_tag(4), None);
    assert_eq!(DriverType::MODBUS_ASCII.tag(), 3);
    assert_eq!(ModbusErrorCode::from_tag(9), None);
    assert_eq!(plc4rust::modbus::ModbusDataType::LWORD.get_arguments().data_type_size, 8);
    assert_eq!(plc4rust::modbus::ModbusDataType::CHAR.get_arguments().data_type_size, 1);
    assert_eq!(plc4rust::modbus::ModbusDataType::from_tag(27), Some(plc4rust::modbus::ModbusDataType::WSTRING));
}

#[test]
fn file_record_response_round_trip() {
    let pdu = ModbusPDU::ModbusPDUReadFileRecordResponse(ModbusPDUReadFileRecordResponse {
        items: vec![
            ModbusPDUReadFileRecordResponseItem { reference_type: 6, data: vec![0x0D, 0xFE, 0x00, 0x20] },
            ModbusPDUReadFileRecordResponseItem { reference_type: 6, data: vec![0x33, 0xCD, 0x00, 0x40] },
        ],
    });
    let bytes = encode_pdu(&pdu);
    assert_eq!(bytes, vec![0x28, 12, 5, 6, 0x0D, 0xFE, 0x00, 0x20, 5, 6, 0x33, 0xCD, 0x00, 0x40]);
    assert_eq!(pdu.get_length_in_bits(), 8 * 14);
    assert_eq!(decode_pdu(&bytes, true), Ok(pdu));
}

#[test]
fn file_record_response_overrunning_its_byte_count_is_refused() {
    assert_eq!(decode_pdu(&[0x28, 3, 5, 6, 1], true), Err(DecodeError::LengthMismatch));
    assert_eq!(decode_pdu(&[0x28, 2, 0, 6], true), Err(DecodeError::LengthMismatch));
    assert_eq!(decode_pdu(&[0x28, 4, 2, 6, 1], true), Err(DecodeError::TruncatedInput));
}

#[test]
fn file_record_response_too_large_is_refused() {
    let pdu = ModbusPDU::ModbusPDUReadFileRecordResponse(ModbusPDUReadFileRecordResponse {
        items: vec![ModbusPDUReadFileRecordResponseItem { reference_type: 6, data: vec![0; 254] }],
    });
    let mut w = WriteBuffer::new(Endianess::BigEndian, vec![]);
    assert_eq!(pdu.serialize(&mut w), Err(EncodeError::ValueOutOfRange));
    let pdu = ModbusPDU::ModbusPDUReadFileRecordResponse(ModbusPDUReadFileRecordResponse {
        items: vec![ModbusPDUReadFileRecordResponseItem { reference_type: 6, data: vec![0; 253] }],
    });
    assert_eq!(encode_pdu(&pdu).len(), 257);
}

#[test]
fn wide_integers_follow_byte_order() {
    let mut w = WriteBuffer::new(Endianess::BigEndian, vec![]);
    w.write_u32(0x1234_5678);
    w.write_u64(0x0102_0304_0506_0708);
    assert_eq!(w.writer, vec![0x12, 0x34, 0x56, 0x78, 1, 2, 3, 4, 5, 6, 7, 8]);
    let mut r = ReadBuffer::new(Endianess::BigEndian, &w.writer);
    assert_eq!(r.read_u32(), Ok(0x1234_5678));
    assert_eq!(r.read_u64(), Ok(0x0102_0304_0506_0708));
    assert_eq!(r.read_u32(), Err(DecodeError::TruncatedInput));

    let mut w = WriteBuffer::new(Endianess::LittleEndian, vec![]);
    w.write_u32(0x1234_5678);
    assert_eq!(w.writer, vec![0x78, 0x56, 0x34, 0x12]);
    let mut r = ReadBuffer::new(Endianess::LittleEndian, &w.writer);
    assert_eq!(r.read_u32(), Ok(0x1234_5678));

    let mut r = ReadBuffer::new(Endianess::LittleEndian, &[1, 2, 3]);
    assert_eq!(r.read_u32(), Err(DecodeError::TruncatedInput));
    assert_eq!(r.read_u8(), Ok(1));
}

#[test]
fn write_file_record_request_and_echo() {
    let records = plc4rust::modbus::FileRecords {
        items: vec![plc4rust::modbus::ModbusPDUWriteFileRecordResponseItem {
            reference_type: 6,
            file_number: 4,
            record_number: 7,
            record_data: vec![0x06, 0xAF, 0x04, 0xBE, 0x10, 0x0D],
        }],
    };
    let request = ModbusPDU::ModbusPDUWriteFileRecordRequest(records.clone());
    let bytes = encode_pdu(&request);
    assert_eq!(bytes, vec![0x2A, 13, 6, 0, 4, 0, 7, 0, 3, 0x06, 0xAF, 0x04, 0xBE, 0x10, 0x0D]);
    assert_eq!(request.get_length_in_bits(), 8 * 15);
    assert_eq!(decode_pdu(&bytes, false), Ok(request));
    assert_eq!(decode_pdu(&bytes, true), Ok(ModbusPDU::ModbusPDUWriteFileRecordResponse(records)));
}

#[test]
fn write_file_record_overrunning_its_byte_count_is_refused() {
    assert_eq!(decode_pdu(&[0x2A, 3, 6, 0, 4], false), Err(DecodeError::LengthMismatch));
    assert_eq!(decode_pdu(&[0x2A, 8, 6, 0, 4, 0, 7, 0, 3, 1], false), Err(DecodeError::LengthMismatch));
}

#[test]
fn device_information_enumerations_round_trip() {
    let mut w = WriteBuffer::new(Endianess::BigEndian, vec![]);
    assert_eq!(ModbusDeviceInformationLevel::EXTENDED.serialize(&mut w), Ok(1));
    assert_eq!(ModbusDeviceInformationMoreFollows::MORE_OBJECTS_AVAILABLE.serialize(&mut w), Ok(1));
    assert_eq!(w.writer, vec![0x03, 0xFF]);
    let mut r = ReadBuffer::new(Endianess::BigEndian, &w.writer);
    assert_eq!(ModbusDeviceInformationLevel::parse(&mut r, plc4rust::NoOption {}), Ok(ModbusDeviceInformationLevel::EXTENDED));
    assert_eq!(
        ModbusDeviceInformationMoreFollows::parse(&mut r, plc4rust::NoOption {}),
        Ok(ModbusDeviceInformationMoreFollows::MORE_OBJECTS_AVAILABLE)
    );
    let mut r = ReadBuffer::new(Endianess::BigEndian, &[0x07]);
    assert_eq!(ModbusDeviceInformationLevel::parse(&mut r, plc4rust::NoOption {}), Err(DecodeError::UnknownDiscriminant(Discriminant::Tag { tag: 7 })));
    let mut r = ReadBuffer::new(Endianess::BigEndian, &[]);
    assert_eq!(DriverType::parse(&mut r, plc4rust::NoOption {}), Err(DecodeError::TruncatedInput));
}

#[test]
fn whole_byte_fields_follow_byte_order() {
    let mut r = ReadBuffer::new(Endianess::BigEndian, &[0x01, 0x02]);
    assert_eq!(r.read_u_n(16), Ok(0x0102));
    let mut r = ReadBuffer::new(Endianess::LittleEndian, &[0x01, 0x02]);
    assert_eq!(r.read_u_n(16), Ok(0x0201));
    let mut r = ReadBuffer::new(Endianess::BigEndian, &[0x01, 0x02]);
    assert_eq!(r.read_u_n(24), Err(DecodeError::TruncatedInput));
    assert_eq!(r.read_u_n(8), Ok(0x01));

    let mut w = WriteBuffer::new(Endianess::BigEndian, vec![]);
    assert_eq!(w.write_u_n(16, 0x0102), 2);
    assert_eq!(w.writer, vec![0x01, 0x02]);
    let mut w = WriteBuffer::new(Endianess::LittleEndian, vec![]);
    assert_eq!(w.write_u_n(16, 0x0102), 2);
    assert_eq!(w.writer, vec![0x02, 0x01]);

    let mut w = WriteBuffer::new(Endianess::BigEndian, vec![]);
    w.write_u_n(32, 0xAABB_CCDD);
    w.write_u_n(64, 0x0102_0304_0506_0708);
    assert_eq!(w.writer, vec![0xAA, 0xBB, 0xCC, 0xDD, 1, 2, 3, 4, 5, 6, 7, 8]);
    let mut r = ReadBuffer::new(Endianess::BigEndian, &w.writer);
    assert_eq!(r.read_u_n(32), Ok(0xAABB_CCDD));
    assert_eq!(r.read_u_n(64), Ok(0x0102_0304_0506_0708));
}

#[test]
fn unaligned_fields_stay_in_bit_order() {
    let mut w = WriteBuffer::new(Endianess::BigEndian, vec![]);
    w.write_bit(true);
    w.write_u_n(16, 0x0102);
    w.write_u_n(7, 0);
    assert_eq!(w.writer, vec![0x05, 0x02, 0x00]);
    let mut r = ReadBuffer::new(Endianess::BigEndian, &w.writer);
    assert_eq!(r.read_bit(), Ok(true));
    assert_eq!(r.read_u_n(16), Ok(0x0102));
}
