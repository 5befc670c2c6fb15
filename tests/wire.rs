use plc4rust::modbus::{
    DriverType, ModbusADU, ModbusADUOptions, ModbusDataType, ModbusDeviceInformationConformityLevel,
    ModbusErrorCode, ModbusPDU, ModbusPDUReadDiscreteInputsRequest, ModbusPDUReadDiscreteInputsResponse,
    ModbusPDUReadFileRecordRequestItem, ModbusPDUWriteFileRecordResponseItem, ModbusTcpADU,
};
use plc4rust::read_buffer::ReadBuffer;
use plc4rust::write_buffer::{BitWriter, WriteBuffer};
use plc4rust::{DecodeError, Endianess, Message, NoOption};

#[test]
fn lib_test() {
    println!("Hello world! Hurz!");
}

#[test]
fn test_macro() {
    let x = ModbusErrorCode::ILLEGAL_FUNCTION;
    let y: u8 = x.tag();

    assert_eq!(1, y);
    assert_eq!(10, ModbusErrorCode::GATEWAY_PATH_UNAVAILABLE.tag());
    assert_eq!(11, ModbusErrorCode::GATEWAY_TARGET_DEVICE_FAILED_TO_RESPOND.tag());
}

#[test]
fn test_u7() {
    let x = ModbusDeviceInformationConformityLevel::BASIC_STREAM_ONLY;
    let y: u8 = x.tag();
    assert_eq!(0x01, y);

    let r: Vec<u8> = vec![];
    let mut reader = ReadBuffer::new(Endianess::BigEndian, &*r);

    let y = ModbusDeviceInformationConformityLevel::parse(&mut reader);
    assert_eq!(y, Err(DecodeError::TruncatedInput));
}

#[test]
fn deserialize_adu() {
    let options = ModbusADUOptions { driver_type: DriverType::MODBUS_TCP, response: false };

    let bytes: Vec<u8> = vec![];
    let mut read_buffer = ReadBuffer::new(Endianess::BigEndian, &*bytes);

    let result = ModbusADU::parse(&mut read_buffer, options);
    assert_eq!(result, Err(DecodeError::TruncatedInput));
}

#[test]
fn modbus_ser_deser() {
    let message = ModbusPDUWriteFileRecordResponseItem {
        reference_type: 0,
        file_number: 0,
        record_number: 0,
        record_data: vec![1, 2, 3, 4],
    };

    let bytes: Vec<u8> = vec![];

    let mut writer = WriteBuffer::new(Endianess::BigEndian, bytes);

    let _ = message.serialize(&mut writer);

    let bytes = writer.writer.clone();

    assert_eq!(vec![0, 0, 0, 0, 0, 0, 2, 1, 2, 3, 4], bytes);

    let bytes = writer.writer.clone();
    let mut reader = ReadBuffer::new(Endianess::BigEndian, &*bytes);

    if let Ok(msg) = ModbusPDUWriteFileRecordResponseItem::parse(&mut reader, NoOption {}) {
        assert_eq!(message, msg);
    } else {
        assert!(false);
    }
}

#[test]
fn mod_ser_deser() {
    let message = ModbusPDUWriteFileRecordResponseItem {
        reference_type: 0,
        file_number: 0,
        record_number: 0,
        record_data: vec![1, 2, 3, 4],
    };

    let bytes: Vec<u8> = vec![];

    let mut writer = WriteBuffer::new(Endianess::BigEndian, bytes);

    let _ = message.serialize(&mut writer);

    let bytes = writer.writer.clone();

    assert_eq!(vec![0, 0, 0, 0, 0, 0, 2, 1, 2, 3, 4], bytes);

    let bytes = writer.writer.clone();
    let mut reader = ReadBuffer::new(Endianess::BigEndian, &*bytes);

    if let Ok(msg) = ModbusPDUWriteFileRecordResponseItem::parse(&mut reader, NoOption {}) {
        assert_eq!(message, msg);
    } else {
        assert!(false);
    }
}

#[test]
fn modbus_data_type_read_write() {
    let data_type = ModbusDataType::BOOL.get_arguments();
    assert_eq!(data_type.data_type_size, 2);
}

#[test]
fn test_read_write() {
    let pdu = ModbusPDU::ModbusPDUReadDiscreteInputsRequest(ModbusPDUReadDiscreteInputsRequest {
        starting_address: 0x03,
        quantity: 1,
    });

    let adu = ModbusADU::ModbusTcpADU(ModbusTcpADU {
        transaction_identifier: 1,
        protocol_identifier: 0x0000,
        unit_identifier: 1,
        pdu,
    });

    // Send this over a wire
    let bytes: Vec<u8> = vec![];
    let mut write_buffer = WriteBuffer::new(Endianess::BigEndian, bytes);
    let result = adu.serialize(&mut write_buffer);
    assert_eq!(result, Ok(10));

    assert_eq!(vec![0, 1, 0, 0, 1, 4, 0, 3, 0, 1], write_buffer.writer);

    let bytes = write_buffer.writer;

    let mut read_buffer = ReadBuffer::new(Endianess::BigEndian, &*bytes);

    let deserialized = ModbusADU::parse(
        &mut read_buffer,
        ModbusADUOptions { driver_type: DriverType::MODBUS_TCP, response: false },
    );

    assert!(deserialized.is_ok());
    assert_eq!(adu, deserialized.unwrap());
}

#[test]
fn read_write_response() {
    let pdu = ModbusPDU::ModbusPDUReadDiscreteInputsResponse(ModbusPDUReadDiscreteInputsResponse {
        value: vec![1],
    });

    let adu = ModbusADU::ModbusTcpADU(ModbusTcpADU {
        transaction_identifier: 1,
        protocol_identifier: 0x0000,
        unit_identifier: 1,
        pdu,
    });

    // Send this over a wire
    let bytes: Vec<u8> = vec![];
    let mut write_buffer = WriteBuffer::new(Endianess::BigEndian, bytes);
    let result = adu.serialize(&mut write_buffer);
    assert_eq!(result, Ok(8));

    assert_eq!(vec![0, 1, 0, 0, 1, 4, 1, 1], write_buffer.writer);

    let bytes = write_buffer.writer;

    let mut read_buffer = ReadBuffer::new(Endianess::BigEndian, &*bytes);

    let deserialized = ModbusADU::parse(
        &mut read_buffer,
        ModbusADUOptions { driver_type: DriverType::MODBUS_TCP, response: true },
    );

    assert!(deserialized.is_ok());
    assert_eq!(adu, deserialized.unwrap());
}

#[test]
fn types_test() {
    let item = ModbusPDUReadFileRecordRequestItem {
        reference_type: 6,
        file_number: 4,
        record_number: 1,
        record_length: 2,
    };
    assert_eq!(item.get_length_in_bits(), 56);
}

#[test]
fn test_it() {
    let mut target: u8 = 0x1;

    let value: u8 = 0x03;
    let mut position: u8 = 1;
    let num_bits = 2;

    for bit_index in 0..num_bits {
        let mask = ((value >> bit_index) & (0x01)) << position;
        target = target | mask;
        position += 1;
    }

    assert_eq!(target, 0x07);
}

#[test]
fn test_write() {
    let mut writer = BitWriter { position: 0, value: 0 };

    let mut noop_writer: Vec<u8> = vec![];
    writer.write(0x01, 1, &mut noop_writer);
    assert_eq!(writer.value, 0x01);
    assert_eq!(writer.position, 1);

    writer.write(0x01, 1, &mut noop_writer);
    assert_eq!(writer.value, 0x03);
    assert_eq!(writer.position, 2);

    writer.write(0x01, 1, &mut noop_writer);
    assert_eq!(writer.value, 0x07);
    assert_eq!(writer.position, 3);

    writer.write(0x03, 2, &mut noop_writer);
    assert_eq!(writer.value, 31);
    assert_eq!(writer.position, 5);

    // Now overflow
    writer.write(0x00, 3, &mut noop_writer);
    assert_eq!(writer.value, 0);
    assert_eq!(writer.position, 0);
}

#[test]
fn test_write_byte() {
    let mut writer = BitWriter { position: 0, value: 0 };

    let mut bytes: Vec<u8> = vec![];

    // Now overflow
    writer.write(0xFF, 8, &mut bytes);
    assert_eq!(writer.value, 0);
    assert_eq!(writer.position, 0);
    assert_eq!(*bytes.get(0).unwrap(), 0xFF);
}

#[test]
fn write_bit_via_writer() {
    let bytes: Vec<u8> = vec![];

    let mut writer = WriteBuffer::new(Endianess::BigEndian, bytes);

    writer.write_u_n(9, 0xFFFF);
    assert_eq!(writer.bit_writer.position, 1);
    assert_eq!(writer.bit_writer.value, 0x01);

    let bytes = writer.writer;

    assert_eq!(*bytes.get(0).unwrap(), 0xFF);
    assert_eq!(bytes.get(1), None);
}
