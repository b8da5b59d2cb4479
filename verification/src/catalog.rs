//! The message catalog: which telegrams a definition applies to, and how the
//! fields of its payload are laid out.

use vstd::prelude::*;
use crate::pattern::same_text;

verus! {

/// Bit pattern of the binary64 number 1.0, the only scale factor that leaves
/// a raw value an integer.
pub const FACTOR_ONE_BITS: u64 = 0x3FF0_0000_0000_0000;

/// The layouts in which a field can lie in a payload.
#[derive(Clone, Copy, Debug, PartialEq, Eq, Structural)]
pub enum DataType {
    /// One byte.
    U8,
    /// Two bytes, low byte first.
    U16Le,
    /// Two bytes, high byte first.
    U16Be,
}

/// Why a field of a field map yields no value.
#[derive(Clone, Copy, Debug, PartialEq, Eq, Structural)]
pub enum FieldError {
    /// The definition names a data type that is not supported.
    UnsupportedType,
    /// The payload ends before the last byte of the field.
    OutOfRange,
}

/// The value of one decoded field.
#[derive(Clone, Copy, Debug, PartialEq, Eq, Structural)]
pub enum FieldValue {
    /// The raw value, for a scale factor of exactly 1.0.
    Integer(u16),
    /// The raw value and the bit pattern of the binary64 factor by which it
    /// is to be multiplied.
    Scaled { raw: u16, factor_bits: u64 },
}

/// Patterns for the four fields of a request by which a definition is chosen.
#[derive(Clone, Debug)]
pub struct RequestMatch {
    pub src: String,
    pub dst: String,
    pub pbsb: String,
    pub data: String,
}

/// One entry of a field map.
#[derive(Clone, Debug)]
pub struct FieldDef {
    pub field_name: String,
    /// Index into the payload of the field's first byte.
    pub field_offset: u64,
    /// Name of the layout: `u8`, `u16le` or `u16he`.
    pub data_type: String,
    /// Bit pattern of the binary64 scale factor.
    pub factor_bits: u64,
    pub unit: String,
}

/// One message definition.
#[derive(Clone, Debug)]
pub struct MessageDef {
    pub comment: String,
    pub request_match: RequestMatch,
    /// Layout of the request payload, if the definition has one.
    pub request_map: Option<Vec<FieldDef>>,
    /// Layout of the response payload, if the definition has one.
    pub response_map: Option<Vec<FieldDef>>,
}

/// A named group of message definitions.
#[derive(Clone, Debug)]
pub struct Circuit {
    pub name: String,
    pub messages: Vec<MessageDef>,
}

/// The whole catalog of one appliance.
#[derive(Clone, Debug)]
pub struct Catalog {
    pub appliance: String,
    pub bus: String,
    pub circuits: Vec<Circuit>,
}

/// The layout that a data type name stands for, if it is a supported one.
pub open spec fn data_type_of(name: Seq<char>) -> Option<DataType> {
    if name == "u8"@ {
        Some(DataType::U8)
    } else if name == "u16le"@ {
        Some(DataType::U16Le)
    } else if name == "u16he"@ {
        Some(DataType::U16Be)
    } else {
        None
    }
}

/// Looks up a data type by its name in the catalog.
pub fn parse_data_type(name: &str) -> (kind: Option<DataType>)
    ensures
        kind == data_type_of(name@),
{
    if same_text(name, "u8") {
        Some(DataType::U8)
    } else if same_text(name, "u16le") {
        Some(DataType::U16Le)
    } else if same_text(name, "u16he") {
        Some(DataType::U16Be)
    } else {
        None
    }
}

/// The unsigned integer that lies at `offset` in `payload` in the layout
/// `kind`, or nothing if the payload does not reach that far.
pub open spec fn raw_value(kind: DataType, payload: Seq<u8>, offset: int) -> Option<u16> {
    match kind {
        DataType::U8 => if 0 <= offset < payload.len() {
            Some(payload[offset] as u16)
        } else {
            None
        },
        DataType::U16Le => if 0 <= offset && offset + 1 < payload.len() {
            Some((payload[offset] + 256 * payload[offset + 1]) as u16)
        } else {
            None
        },
        DataType::U16Be => if 0 <= offset && offset + 1 < payload.len() {
            Some((256 * payload[offset] + payload[offset + 1]) as u16)
        } else {
            None
        },
    }
}

/// Reads the unsigned integer at `offset` in `payload` in the layout `kind`.
pub fn read_raw(kind: DataType, payload: &[u8], offset: u64) -> (raw: Option<u16>)
    ensures
        raw == raw_value(kind, payload@, offset as int),
{
    let len: u64 = payload.len() as u64;
    match kind {
        DataType::U8 => {
            if offset < len {
                Some(payload[offset as usize] as u16)
            } else {
                None
            }
        },
        DataType::U16Le => {
            if offset < len && offset + 1 < len {
                let low: u8 = payload[offset as usize];
                let high: u8 = payload[offset as usize + 1];
                proof {
                    assert((low as u16) | ((high as u16) << 8) == (low + 256 * high) as u16)
                        by (bit_vector);
                }
                Some((low as u16) | ((high as u16) << 8))
            } else {
                None
            }
        },
        DataType::U16Be => {
            if offset < len && offset + 1 < len {
                let high: u8 = payload[offset as usize];
                let low: u8 = payload[offset as usize + 1];
                proof {
                    assert(((high as u16) << 8) | (low as u16) == (256 * high + low) as u16)
                        by (bit_vector);
                }
                Some(((high as u16) << 8) | (low as u16))
            } else {
                None
            }
        },
    }
}

/// A raw value with its scale factor applied as far as integers allow: a
/// factor of exactly 1.0 keeps the integer, any other factor stays beside it.
pub open spec fn scaled(raw: u16, factor_bits: u64) -> FieldValue {
    if factor_bits == FACTOR_ONE_BITS {
        FieldValue::Integer(raw)
    } else {
        FieldValue::Scaled { raw, factor_bits }
    }
}

/// What one entry of a field map yields on `payload`.
pub open spec fn decoded_field(def: FieldDef, payload: Seq<u8>) -> Result<FieldValue, FieldError> {
    match data_type_of(def.data_type@) {
        None => Err(FieldError::UnsupportedType),
        Some(kind) => match raw_value(kind, payload, def.field_offset as int) {
            None => Err(FieldError::OutOfRange),
            Some(raw) => Ok(scaled(raw, def.factor_bits)),
        },
    }
}

/// Decodes one entry of a field map on `payload`.
pub fn decode_field(def: &FieldDef, payload: &[u8]) -> (value: Result<FieldValue, FieldError>)
    ensures
        value == decoded_field(*def, payload@),
{
    match parse_data_type(def.data_type.as_str()) {
        None => Err(FieldError::UnsupportedType),
        Some(kind) => match read_raw(kind, payload, def.field_offset) {
            None => Err(FieldError::OutOfRange),
            Some(raw) => {
                if def.factor_bits == FACTOR_ONE_BITS {
                    Ok(FieldValue::Integer(raw))
                } else {
                    Ok(FieldValue::Scaled { raw, factor_bits: def.factor_bits })
                }
            },
        },
    }
}

} // verus!
