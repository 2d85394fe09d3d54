//! SigMF datatypes.
//!
//! A SigMF datatype is formed by a field (real or complex) and a sample format
//! (width, integer or floating point, and endianness), and is written as a
//! short text such as `ci16_le`.

use vstd::prelude::*;
use crate::json::RecorderMode;

verus! {

/// Datatype field: whether the signal is complex (IQ) or real.
#[derive(Debug, Copy, Clone, PartialEq, Eq, Hash, Structural)]
pub enum Field {
    /// Real field.
    Real,
    /// Complex field.
    Complex,
}

/// Endianness of multi-byte samples.
#[derive(Debug, Copy, Clone, PartialEq, Eq, Hash, Structural)]
pub enum Endianness {
    /// Little-endian.
    Le,
    /// Big-endian.
    Be,
}

/// Sample format: width and type of the numbers that represent the samples.
#[derive(Debug, Copy, Clone, PartialEq, Eq, Hash, Structural)]
pub enum SampleFormat {
    /// 32-bit IEEE 754 floating point.
    F32(Endianness),
    /// 64-bit IEEE 754 floating point.
    F64(Endianness),
    /// 32-bit signed integer.
    I32(Endianness),
    /// 16-bit signed integer.
    I16(Endianness),
    /// 32-bit unsigned integer.
    U32(Endianness),
    /// 16-bit unsigned integer.
    U16(Endianness),
    /// 8-bit signed integer.
    I8,
    /// 8-bit unsigned integer.
    U8,
}

/// SigMF datatype.
#[derive(Debug, Copy, Clone, PartialEq, Eq, Hash, Structural)]
pub struct Datatype {
    /// Datatype field.
    pub field: Field,
    /// Datatype sample format.
    pub format: SampleFormat,
}

/// Text of a field.
pub open spec fn field_text(f: Field) -> Seq<char> {
    match f {
        Field::Real => "r"@,
        Field::Complex => "c"@,
    }
}

/// Text of the number type of a sample format.
pub open spec fn format_text(f: SampleFormat) -> Seq<char> {
    match f {
        SampleFormat::F32(_) => "f32"@,
        SampleFormat::F64(_) => "f64"@,
        SampleFormat::I32(_) => "i32"@,
        SampleFormat::I16(_) => "i16"@,
        SampleFormat::U32(_) => "u32"@,
        SampleFormat::U16(_) => "u16"@,
        SampleFormat::I8 => "i8"@,
        SampleFormat::U8 => "u8"@,
    }
}

/// Endianness suffix of a sample format (empty for single-byte formats).
pub open spec fn endianness_text(f: SampleFormat) -> Seq<char> {
    let e = match f {
        SampleFormat::F32(e) => Some(e),
        SampleFormat::F64(e) => Some(e),
        SampleFormat::I32(e) => Some(e),
        SampleFormat::I16(e) => Some(e),
        SampleFormat::U32(e) => Some(e),
        SampleFormat::U16(e) => Some(e),
        SampleFormat::I8 => None,
        SampleFormat::U8 => None,
    };
    match e {
        Some(Endianness::Le) => "_le"@,
        Some(Endianness::Be) => "_be"@,
        None => ""@,
    }
}

/// Text of a datatype: field, number type and endianness suffix.
pub open spec fn datatype_text(d: Datatype) -> Seq<char> {
    field_text(d.field) + format_text(d.format) + endianness_text(d.format)
}

impl Datatype {
    /// Returns the SigMF text of the datatype, such as `ci16_le`.
    pub fn to_string(&self) -> (r: String)
        ensures
            r@ == datatype_text(*self),
    {
        let field = match self.field {
            Field::Real => "r",
            Field::Complex => "c",
        };
        let (format, endianness) = match self.format {
            SampleFormat::F32(e) => ("f32", Some(e)),
            SampleFormat::F64(e) => ("f64", Some(e)),
            SampleFormat::I32(e) => ("i32", Some(e)),
            SampleFormat::I16(e) => ("i16", Some(e)),
            SampleFormat::U32(e) => ("u32", Some(e)),
            SampleFormat::U16(e) => ("u16", Some(e)),
            SampleFormat::I8 => ("i8", None),
            SampleFormat::U8 => ("u8", None),
        };
        let endianness = match endianness {
            Some(e) => match e {
                Endianness::Le => "_le",
                Endianness::Be => "_be",
            },
            None => "",
        };
        let mut s = String::from_str(field);
        s.append(format);
        s.append(endianness);
        s
    }
}

/// Datatype of the recordings made in each recorder mode: 8-bit recordings are
/// complex 8-bit integers, 12-bit and 16-bit recordings are complex 16-bit
/// little-endian integers.
pub open spec fn recorder_mode_datatype(value: RecorderMode) -> Datatype {
    match value {
        RecorderMode::IQ8bit => Datatype { field: Field::Complex, format: SampleFormat::I8 },
        RecorderMode::IQ12bit | RecorderMode::IQ16bit => Datatype {
            field: Field::Complex,
            format: SampleFormat::I16(Endianness::Le),
        },
    }
}

impl From<RecorderMode> for Datatype {
    fn from(value: RecorderMode) -> (r: Datatype) {
        match value {
            RecorderMode::IQ8bit => Datatype { field: Field::Complex, format: SampleFormat::I8 },
            RecorderMode::IQ12bit | RecorderMode::IQ16bit => Datatype {
                field: Field::Complex,
                format: SampleFormat::I16(Endianness::Le),
            },
        }
    }
}

impl vstd::std_specs::convert::FromSpecImpl<RecorderMode> for Datatype {
    open spec fn obeys_from_spec() -> bool {
        true
    }

    open spec fn from_spec(v: RecorderMode) -> Datatype {
        recorder_mode_datatype(v)
    }
}

/// The SigMF datatype texts: `r` or `c` for the field, the number type, and
/// `_le` or `_be` for multi-byte formats; 8-bit recordings are `ci8`, 12-bit
/// and 16-bit recordings `ci16_le`.
pub proof fn lemma_datatype_texts(e: Endianness)
    ensures
        field_text(Field::Real) == "r"@,
        field_text(Field::Complex) == "c"@,
        format_text(SampleFormat::F32(e)) == "f32"@,
        format_text(SampleFormat::F64(e)) == "f64"@,
        format_text(SampleFormat::I32(e)) == "i32"@,
        format_text(SampleFormat::I16(e)) == "i16"@,
        format_text(SampleFormat::U32(e)) == "u32"@,
        format_text(SampleFormat::U16(e)) == "u16"@,
        format_text(SampleFormat::I8) == "i8"@,
        format_text(SampleFormat::U8) == "u8"@,
        endianness_text(SampleFormat::I16(Endianness::Le)) == "_le"@,
        endianness_text(SampleFormat::I16(Endianness::Be)) == "_be"@,
        endianness_text(SampleFormat::I8) == ""@,
        endianness_text(SampleFormat::U8) == ""@,
        datatype_text(recorder_mode_datatype(RecorderMode::IQ8bit)) == "c"@ + "i8"@ + ""@,
        datatype_text(recorder_mode_datatype(RecorderMode::IQ12bit)) == "c"@ + "i16"@ + "_le"@,
        datatype_text(recorder_mode_datatype(RecorderMode::IQ16bit)) == "c"@ + "i16"@ + "_le"@,
{
}

} // verus!
