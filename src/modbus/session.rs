use vstd::prelude::*;

use crate::modbus::modbus_adu::{adu_fits, AduModel, ModbusADU, ModbusTcpADU};
use crate::modbus::modbus_pdu::{ModbusPDU, PduModel};
use crate::modbus::pdu_body::Body;
use crate::modbus::pdu_fields::{AddressQuantity, ByteValues};

verus! {

/// The request a client opens with: read one coil at address 0 of unit 1, as
/// transaction 1 over TCP.
pub fn create_request() -> (r: ModbusADU)
    ensures
        r@ == (AduModel::Tcp {
            transaction_identifier: 1,
            protocol_identifier: 0,
            unit_identifier: 1,
            pdu: PduModel::Message { function_code: 0x01, response: false, body: Body::TwoWords(0, 1) },
        }),
        adu_fits(r@),
{
    let pdu = ModbusPDU::ModbusPDUReadCoilsRequest(AddressQuantity { starting_address: 0, quantity: 1 });
    ModbusADU::ModbusTcpADU(
        ModbusTcpADU { transaction_identifier: 1, protocol_identifier: 0x0000, unit_identifier: 1, pdu },
    )
}

/// The coil contents the server reports.
pub open spec fn served_coils() -> Seq<u8> {
    seq![1u8, 2u8, 3u8]
}

/// How the server answers a request: a read-coils request over TCP gets the served coil
/// contents, under the request's transaction, protocol and unit identifiers; any other
/// request gets no answer.
pub fn respond(request: &ModbusADU) -> (r: Option<ModbusADU>)
    ensures
        match request@ {
            AduModel::Tcp {
                transaction_identifier,
                protocol_identifier,
                unit_identifier,
                pdu: PduModel::Message { function_code: 0x01, response: false, .. },
            } => r is Some && r->Some_0@ == (AduModel::Tcp {
                transaction_identifier,
                protocol_identifier,
                unit_identifier,
                pdu: PduModel::Message { function_code: 0x01, response: true, body: Body::Bytes(served_coils()) },
            }),
            _ => r is None,
        },
{
    match request {
        ModbusADU::ModbusTcpADU(t) => match &t.pdu {
            ModbusPDU::ModbusPDUReadCoilsRequest(_) => {
                let mut value: Vec<u8> = Vec::new();
                value.push(1);
                value.push(2);
                value.push(3);
                assert(value@ =~= served_coils());
                let pdu = ModbusPDU::ModbusPDUReadCoilsResponse(ByteValues { value });
                Some(
                    ModbusADU::ModbusTcpADU(
                        ModbusTcpADU {
                            transaction_identifier: t.transaction_identifier,
                            protocol_identifier: t.protocol_identifier,
                            unit_identifier: t.unit_identifier,
                            pdu,
                        },
                    ),
                )
            },
            _ => None,
        },
        _ => None,
    }
}

} // verus!
