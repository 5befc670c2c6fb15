pub mod enums;
pub mod file_record;
pub mod modbus_adu;
pub mod modbus_pdu;
pub mod pdu_body;
pub mod pdu_fields;
pub mod session;

pub use enums::{
    DriverType, ModbusDataType, ModbusDataTypeArguments, ModbusDeviceInformationConformityLevel,
    ModbusDeviceInformationLevel, ModbusDeviceInformationMoreFollows, ModbusErrorCode,
};
pub use file_record::{ModbusPDUReadFileRecordRequestItem, ModbusPDUWriteFileRecordResponseItem};
pub use modbus_adu::{
    ModbusADU, ModbusADUOptions, ModbusAsciiADU, ModbusAsciiADUOptions, ModbusRtuADU, ModbusRtuADUOptions, ModbusTcpADU,
    ModbusTcpADUOptions,
};
pub use modbus_pdu::{
    ModbusPDU, ModbusPDUError, ModbusPDUOption, ModbusPDUReadCoilsRequest, ModbusPDUReadCoilsResponse,
    ModbusPDUReadDiscreteInputsRequest, ModbusPDUReadDiscreteInputsResponse, ModbusPDUWriteFileRecordRequest,
    ModbusPDUWriteFileRecordResponse,
};
pub use pdu_fields::{
    AddressQuantity, AddressQuantityValues, AddressValue, ByteValues, FileRecords, ModbusPDUGetComEventCounterResponse,
    ModbusPDUReadFifoQueueRequest, ModbusPDUReadFifoQueueResponse, ModbusPDUReadFileRecordRequest,
    ModbusPDUReadFileRecordResponse, ModbusPDUReadFileRecordResponseItem,
};
pub use session::{create_request, respond};
