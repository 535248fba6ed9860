//! The common shape of everything that can be decoded from the stream:
//! one trait, one `read` per type. Every implementation hands the work
//! to the type's own decoder and restates its exact contract.

use crate::lookup::{lookup_parse, table_entries, LookupError, LookupRef, LookupValue};
use crate::node::{node_parse, Node, NodeReadError, NodeV};
use crate::reader::{
    le_i16, le_i32, le_u16, le_u32, varint_parse, IoError, Reader, StringLength,
};
use crate::strings::{lp_parse, rle_parse, NonRleString, RleString, StringReadError};
use crate::value::{value_parse, ReadValueError, Value, ValueV};
use vstd::prelude::*;

verus! {

/// A value that the decoder can read from the stream, given the lookup
/// table when one exists yet.
pub trait CelesteIo: Sized {
    type Error;

    fn read(r: &mut Reader, lookup: Option<LookupRef<'_>>) -> (res: Result<Self, Self::Error>)
        requires
            old(r).wf(),
        ensures
            final(r).wf(),
            final(r).bytes() == old(r).bytes(),
            old(r).position() <= final(r).position(),
    ;
}

impl CelesteIo for bool {
    type Error = IoError;

    fn read(r: &mut Reader, lookup: Option<LookupRef<'_>>) -> (res: Result<Self, Self::Error>)
        ensures
            match res {
                Ok(b) => old(r).remaining().len() >= 1 && b == (old(r).remaining()[0] != 0)
                    && final(r).position() == old(r).position() + 1,
                Err(e) => e == IoError::UnexpectedEnd && old(r).remaining().len() == 0,
            },
    {
        r.read_bool()
    }
}

impl CelesteIo for u8 {
    type Error = IoError;

    fn read(r: &mut Reader, lookup: Option<LookupRef<'_>>) -> (res: Result<Self, Self::Error>)
        ensures
            match res {
                Ok(b) => old(r).remaining().len() >= 1 && b == old(r).remaining()[0]
                    && final(r).position() == old(r).position() + 1,
                Err(e) => e == IoError::UnexpectedEnd && old(r).remaining().len() == 0,
            },
    {
        r.read_u8()
    }
}

impl CelesteIo for u16 {
    type Error = IoError;

    fn read(r: &mut Reader, lookup: Option<LookupRef<'_>>) -> (res: Result<Self, Self::Error>)
        ensures
            match res {
                Ok(v) => old(r).remaining().len() >= 2 && v == le_u16(
                    old(r).remaining()[0],
                    old(r).remaining()[1],
                ) && final(r).position() == old(r).position() + 2,
                Err(e) => e == IoError::UnexpectedEnd && old(r).remaining().len() < 2,
            },
    {
        r.read_u16()
    }
}

impl CelesteIo for i16 {
    type Error = IoError;

    fn read(r: &mut Reader, lookup: Option<LookupRef<'_>>) -> (res: Result<Self, Self::Error>)
        ensures
            match res {
                Ok(v) => old(r).remaining().len() >= 2 && v == le_i16(
                    old(r).remaining()[0],
                    old(r).remaining()[1],
                ) && final(r).position() == old(r).position() + 2,
                Err(e) => e == IoError::UnexpectedEnd && old(r).remaining().len() < 2,
            },
    {
        r.read_i16()
    }
}

impl CelesteIo for u32 {
    type Error = IoError;

    fn read(r: &mut Reader, lookup: Option<LookupRef<'_>>) -> (res: Result<Self, Self::Error>)
        ensures
            match res {
                Ok(v) => old(r).remaining().len() >= 4 && v == le_u32(
                    old(r).remaining()[0],
                    old(r).remaining()[1],
                    old(r).remaining()[2],
                    old(r).remaining()[3],
                ) && final(r).position() == old(r).position() + 4,
                Err(e) => e == IoError::UnexpectedEnd && old(r).remaining().len() < 4,
            },
    {
        r.read_u32()
    }
}

impl CelesteIo for i32 {
    type Error = IoError;

    fn read(r: &mut Reader, lookup: Option<LookupRef<'_>>) -> (res: Result<Self, Self::Error>)
        ensures
            match res {
                Ok(v) => old(r).remaining().len() >= 4 && v == le_i32(
                    old(r).remaining()[0],
                    old(r).remaining()[1],
                    old(r).remaining()[2],
                    old(r).remaining()[3],
                ) && final(r).position() == old(r).position() + 4,
                Err(e) => e == IoError::UnexpectedEnd && old(r).remaining().len() < 4,
            },
    {
        r.read_i32()
    }
}

impl CelesteIo for StringLength {
    type Error = IoError;

    fn read(r: &mut Reader, lookup: Option<LookupRef<'_>>) -> (res: Result<Self, Self::Error>)
        ensures
            match res {
                Ok(value) => varint_parse(old(r).remaining()) == Some(
                    (value.0 as nat, final(r).position() - old(r).position()),
                ),
                Err(IoError::UnexpectedEnd) => varint_parse(old(r).remaining()) is None,
                Err(IoError::LengthOverflow) => varint_parse(old(r).remaining()) matches Some(
                    (v, n),
                ) && v > usize::MAX,
            },
    {
        StringLength::decode(r)
    }
}

impl CelesteIo for NonRleString {
    type Error = StringReadError;

    fn read(r: &mut Reader, lookup: Option<LookupRef<'_>>) -> (res: Result<Self, Self::Error>)
        ensures
            match res {
                Ok(v) => lp_parse(old(r).remaining()) matches Ok((cs, n)) && v.0@ == cs
                    && final(r).position() == old(r).position() + n,
                Err(e) => lp_parse(old(r).remaining()) == Err::<(Seq<char>, int), _>(e),
            },
    {
        NonRleString::decode(r)
    }
}

impl CelesteIo for RleString {
    type Error = StringReadError;

    fn read(r: &mut Reader, lookup: Option<LookupRef<'_>>) -> (res: Result<Self, Self::Error>)
        ensures
            match res {
                Ok(v) => rle_parse(old(r).remaining()) matches Ok((cs, n)) && v.0@ == cs
                    && final(r).position() == old(r).position() + n,
                Err(e) => rle_parse(old(r).remaining()) == Err::<(Seq<char>, int), _>(e),
            },
    {
        RleString::decode(r)
    }
}

impl CelesteIo for LookupValue {
    type Error = LookupError;

    fn read(r: &mut Reader, lookup: Option<LookupRef<'_>>) -> (res: Result<Self, Self::Error>)
        ensures
            match res {
                Ok(v) => lookup_parse(old(r).remaining(), table_entries(lookup)) matches Ok(
                    (cs, n),
                ) && v.0@ == cs && final(r).position() == old(r).position() + n,
                Err(e) => lookup_parse(old(r).remaining(), table_entries(lookup)) == Err::<
                    (Seq<char>, int),
                    _,
                >(e) && final(r).position() == old(r).position() + (if e is Io {
                    0int
                } else {
                    2int
                }),
            },
    {
        LookupValue::read(r, lookup)
    }
}

impl CelesteIo for Value {
    type Error = ReadValueError;

    fn read(r: &mut Reader, lookup: Option<LookupRef<'_>>) -> (res: Result<Self, Self::Error>)
        ensures
            match res {
                Ok(v) => value_parse(old(r).remaining(), table_entries(lookup)) matches Ok((w, n))
                    && v@ == w && final(r).position() == old(r).position() + n,
                Err(e) => value_parse(old(r).remaining(), table_entries(lookup)) == Err::<
                    (ValueV, int),
                    _,
                >(e),
            },
            res matches Err(ReadValueError::UnknownValueType(t)) ==> final(r).position() == old(
                r,
            ).position() + 1,
    {
        Value::read(r, lookup)
    }
}

impl CelesteIo for Node {
    type Error = NodeReadError;

    fn read(r: &mut Reader, lookup: Option<LookupRef<'_>>) -> (res: Result<Self, Self::Error>)
        ensures
            match res {
                Ok(node) => node_parse(old(r).remaining(), table_entries(lookup)) matches Ok(
                    (nv, n),
                ) && node@ == nv && final(r).position() == old(r).position() + n,
                Err(e) => node_parse(old(r).remaining(), table_entries(lookup)) == Err::<
                    (NodeV, int),
                    _,
                >(e),
            },
    {
        Node::read(r, lookup)
    }
}

} // verus!
