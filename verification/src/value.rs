//! Tagged value decoder: one tag byte selects the payload decoder, and
//! the result is a closed union over booleans, 32-bit integers, 32-bit
//! float bit patterns, and strings.

use crate::lookup::{lookup_parse, table_entries, LookupError, LookupRef, LookupValue};
use crate::reader::{le_i16, le_i32, le_u32, IoError, Reader};
use crate::strings::{lp_parse, rle_parse, NonRleString, RleString, StringReadError};
use vstd::prelude::*;

verus! {

/// A decoded scalar. The float variant carries the raw little-endian
/// IEEE 754 bit pattern; callers that need the numeric value
/// reinterpret the bits themselves.
#[derive(Debug, Clone)]
pub enum Value {
    Bool(bool),
    Int(i32),
    Float(u32),
    String(String),
}

/// The mathematical form of a decoded scalar.
pub enum ValueV {
    Bool(bool),
    Int(i32),
    Float(u32),
    Str(Seq<char>),
}

impl View for Value {
    type V = ValueV;

    open spec fn view(&self) -> ValueV {
        match self {
            Value::Bool(b) => ValueV::Bool(*b),
            Value::Int(x) => ValueV::Int(*x),
            Value::Float(bits) => ValueV::Float(*bits),
            Value::String(s) => ValueV::Str(s@),
        }
    }
}

/// Failure of a value conversion: the value's tag does not match the
/// requested type.
#[derive(Debug, Clone, Copy, PartialEq, Eq)]
pub struct ValueConversionError;

/// The signed 32-bit integer a value converts to, if its tag matches.
pub open spec fn value_to_int(v: ValueV) -> Option<i32> {
    match v {
        ValueV::Int(x) => Some(x),
        _ => None,
    }
}

/// The unsigned 32-bit integer a value converts to: an integer value
/// that is not negative.
pub open spec fn value_to_uint(v: ValueV) -> Option<u32> {
    match v {
        ValueV::Int(x) => if 0 <= x {
            Some(x as u32)
        } else {
            None
        },
        _ => None,
    }
}

/// The character sequence a value converts to, if its tag matches.
pub open spec fn value_to_text(v: ValueV) -> Option<Seq<char>> {
    match v {
        ValueV::Str(s) => Some(s),
        _ => None,
    }
}

impl Value {
    /// Converts to a signed 32-bit integer; fails on any other tag.
    pub fn to_int(&self) -> (r: Result<i32, ValueConversionError>)
        ensures
            match r {
                Ok(x) => value_to_int(self@) == Some(x),
                Err(_) => value_to_int(self@) is None,
            },
    {
        match self {
            Value::Int(x) => Ok(*x),
            _ => Err(ValueConversionError),
        }
    }

    /// Converts to an unsigned 32-bit integer; fails on any other tag
    /// and on negative integers.
    pub fn to_uint(&self) -> (r: Result<u32, ValueConversionError>)
        ensures
            match r {
                Ok(x) => value_to_uint(self@) == Some(x),
                Err(_) => value_to_uint(self@) is None,
            },
    {
        match self {
            Value::Int(x) => {
                if *x >= 0 {
                    Ok(*x as u32)
                } else {
                    Err(ValueConversionError)
                }
            },
            _ => Err(ValueConversionError),
        }
    }

    /// Converts to an owned string; fails on any other tag.
    pub fn to_text(&self) -> (r: Result<String, ValueConversionError>)
        ensures
            match r {
                Ok(s) => value_to_text(self@) == Some(s@),
                Err(_) => value_to_text(self@) is None,
            },
    {
        match self {
            Value::String(s) => Ok(s.clone()),
            _ => Err(ValueConversionError),
        }
    }
}

/// Failure of a tagged-value decode, wrapping the failing layer's own
/// error; an unrecognized tag is reported with the offending byte.
#[derive(Debug, Clone, Copy, PartialEq, Eq)]
pub enum ReadValueError {
    Io(IoError),
    String(StringReadError),
    UnknownValueType(u8),
    LookupError(LookupError),
}

/// Decodes a tagged value from the front of `s`: one tag byte, then the
/// payload that the tag selects. Yields the value and the number of
/// bytes consumed, or the exact error the decoder reports.
pub open spec fn value_parse(s: Seq<u8>, table: Option<Seq<Seq<char>>>) -> Result<
    (ValueV, int),
    ReadValueError,
> {
    if s.len() < 1 {
        Err(ReadValueError::Io(IoError::UnexpectedEnd))
    } else {
        let rest = s.skip(1);
        if s[0] == 0 {
            if rest.len() < 1 {
                Err(ReadValueError::Io(IoError::UnexpectedEnd))
            } else {
                Ok((ValueV::Bool(rest[0] != 0), 2))
            }
        } else if s[0] == 1 {
            if rest.len() < 1 {
                Err(ReadValueError::Io(IoError::UnexpectedEnd))
            } else {
                Ok((ValueV::Int(rest[0] as i32), 2))
            }
        } else if s[0] == 2 {
            if rest.len() < 2 {
                Err(ReadValueError::Io(IoError::UnexpectedEnd))
            } else {
                Ok((ValueV::Int(le_i16(rest[0], rest[1]) as i32), 3))
            }
        } else if s[0] == 3 {
            if rest.len() < 4 {
                Err(ReadValueError::Io(IoError::UnexpectedEnd))
            } else {
                Ok((ValueV::Int(le_i32(rest[0], rest[1], rest[2], rest[3])), 5))
            }
        } else if s[0] == 4 {
            if rest.len() < 4 {
                Err(ReadValueError::Io(IoError::UnexpectedEnd))
            } else {
                Ok((ValueV::Float(le_u32(rest[0], rest[1], rest[2], rest[3])), 5))
            }
        } else if s[0] == 5 {
            match lookup_parse(rest, table) {
                Ok((cs, n)) => Ok((ValueV::Str(cs), 1 + n)),
                Err(e) => Err(ReadValueError::LookupError(e)),
            }
        } else if s[0] == 6 {
            match lp_parse(rest) {
                Ok((cs, n)) => Ok((ValueV::Str(cs), 1 + n)),
                Err(e) => Err(ReadValueError::String(e)),
            }
        } else if s[0] == 7 {
            match rle_parse(rest) {
                Ok((cs, n)) => Ok((ValueV::Str(cs), 1 + n)),
                Err(e) => Err(ReadValueError::String(e)),
            }
        } else {
            Err(ReadValueError::UnknownValueType(s[0]))
        }
    }
}

impl Value {
    /// Reads one tagged value. A tag outside the known range fails with
    /// `UnknownValueType` carrying the tag byte, consuming only that
    /// byte; the lookup-indexed tag without a table fails with a
    /// `MissingLookup` lookup error.
    pub fn read(r: &mut Reader, lookup: Option<LookupRef<'_>>) -> (res: Result<
        Value,
        ReadValueError,
    >)
        requires
            old(r).wf(),
        ensures
            final(r).wf(),
            final(r).bytes() == old(r).bytes(),
            old(r).position() <= final(r).position(),
            match res {
                Ok(v) => value_parse(old(r).remaining(), table_entries(lookup)) matches Ok((w, n))
                    && v@ == w && final(r).position() == old(r).position() + n,
                Err(e) => value_parse(old(r).remaining(), table_entries(lookup)) == Err::<
                    (ValueV, int),
                    _,
                >(e),
            },
            res matches Err(ReadValueError::UnknownValueType(t)) ==> final(r).position() == old(
                r,
            ).position() + 1,
    {
        let ghost s = old(r).remaining();
        let tag = match r.read_u8() {
            Ok(b) => b,
            Err(e) => {
                return Err(ReadValueError::Io(e));
            },
        };
        proof {
            assert(r.remaining() =~= s.skip(1));
        }
        if tag == 0 {
            match r.read_bool() {
                Ok(b) => Ok(Value::Bool(b)),
                Err(e) => Err(ReadValueError::Io(e)),
            }
        } else if tag == 1 {
            match r.read_u8() {
                Ok(b) => Ok(Value::Int(b as i32)),
                Err(e) => Err(ReadValueError::Io(e)),
            }
        } else if tag == 2 {
            match r.read_i16() {
                Ok(x) => Ok(Value::Int(x as i32)),
                Err(e) => Err(ReadValueError::Io(e)),
            }
        } else if tag == 3 {
            match r.read_i32() {
                Ok(x) => Ok(Value::Int(x)),
                Err(e) => Err(ReadValueError::Io(e)),
            }
        } else if tag == 4 {
            match r.read_u32() {
                Ok(bits) => Ok(Value::Float(bits)),
                Err(e) => Err(ReadValueError::Io(e)),
            }
        } else if tag == 5 {
            match LookupValue::read(r, lookup) {
                Ok(v) => Ok(Value::String(v.0)),
                Err(e) => Err(ReadValueError::LookupError(e)),
            }
        } else if tag == 6 {
            match NonRleString::decode(r) {
                Ok(v) => Ok(Value::String(v.0)),
                Err(e) => Err(ReadValueError::String(e)),
            }
        } else if tag == 7 {
            match RleString::decode(r) {
                Ok(v) => Ok(Value::String(v.0)),
                Err(e) => Err(ReadValueError::String(e)),
            }
        } else {
            Err(ReadValueError::UnknownValueType(tag))
        }
    }
}

} // verus!
