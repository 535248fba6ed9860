//! Lookup table: the per-document ordered string dictionary, built once,
//! read-only afterwards, and referenced elsewhere in the document by a
//! two-byte zero-based index.

use crate::reader::{le_u16, IoError, Reader};
use vstd::prelude::*;

verus! {

/// Failure of a lookup-indexed read: the stream ended, no table was
/// supplied although the tag demands one, or the index is not below the
/// table's length.
#[derive(Debug, Clone, Copy, PartialEq, Eq)]
pub enum LookupError {
    Io(IoError),
    MissingLookup,
    OutOfBounds { length: usize, index: usize },
}

/// The dictionary itself, owning its entries.
pub struct Lookup(Vec<String>);

impl Lookup {
    /// The entries, as character sequences, in table order.
    pub closed spec fn entries(&self) -> Seq<Seq<char>> {
        self.0.deep_view()
    }

    pub fn new(x: Vec<String>) -> (r: Self)
        ensures
            r.entries() == x.deep_view(),
    {
        Lookup(x)
    }

    /// A borrowed, copyable handle on the table.
    pub fn as_ref(&self) -> (r: LookupRef<'_>)
        ensures
            r.entries() == self.entries(),
    {
        LookupRef(self.0.as_slice())
    }
}

/// A shared read-only reference to a lookup table, passed through the
/// whole recursive decode.
#[derive(Clone, Copy)]
pub struct LookupRef<'a>(&'a [String]);

impl<'a> LookupRef<'a> {
    /// The entries, as character sequences, in table order.
    pub closed spec fn entries(&self) -> Seq<Seq<char>> {
        self.0.deep_view()
    }

    /// Resolves an index: any `i` below the length yields entry `i`,
    /// any other `i` yields nothing.
    pub fn get(&self, i: usize) -> (r: Option<&str>)
        ensures
            match r {
                Some(s) => i < self.entries().len() && s@ == self.entries()[i as int],
                None => i >= self.entries().len(),
            },
    {
        if i < self.0.len() {
            Some(self.0[i].as_str())
        } else {
            None
        }
    }

    pub fn len(&self) -> (r: usize)
        ensures
            r == self.entries().len(),
    {
        self.0.len()
    }
}

/// The table that a handle stands for, if one was supplied.
pub open spec fn table_entries(lookup: Option<LookupRef<'_>>) -> Option<Seq<Seq<char>>> {
    match lookup {
        None => None,
        Some(t) => Some(t.entries()),
    }
}

/// Decodes a lookup-indexed string from the front of `s`: a two-byte
/// index resolved against the table. Yields the entry and the two bytes
/// consumed, or the exact error the decoder reports; an out-of-bounds
/// index reports both the index and the table's length.
pub open spec fn lookup_parse(s: Seq<u8>, table: Option<Seq<Seq<char>>>) -> Result<
    (Seq<char>, int),
    LookupError,
> {
    if s.len() < 2 {
        Err(LookupError::Io(IoError::UnexpectedEnd))
    } else {
        let idx = le_u16(s[0], s[1]) as int;
        match table {
            None => Err(LookupError::MissingLookup),
            Some(t) => if idx < t.len() {
                Ok((t[idx], 2))
            } else {
                Err(
                    LookupError::OutOfBounds {
                        length: t.len() as usize,
                        index: idx as usize,
                    },
                )
            },
        }
    }
}

/// A string obtained through the lookup table.
#[derive(Debug)]
pub struct LookupValue(pub String);

impl LookupValue {
    /// Reads a two-byte index and resolves it against the table.
    pub fn read(r: &mut Reader, lookup: Option<LookupRef<'_>>) -> (res: Result<
        LookupValue,
        LookupError,
    >)
        requires
            old(r).wf(),
        ensures
            final(r).wf(),
            final(r).bytes() == old(r).bytes(),
            old(r).position() <= final(r).position(),
            match res {
                Ok(v) => lookup_parse(old(r).remaining(), table_entries(lookup)) matches Ok(
                    (cs, n),
                ) && v.0@ == cs && final(r).position() == old(r).position() + n,
                Err(e) => lookup_parse(old(r).remaining(), table_entries(lookup)) == Err::<
                    (Seq<char>, int),
                    _,
                >(e) && final(r).position() == old(r).position() + (if e is Io {
                    0int
                } else {
                    2int
                }),
            },
    {
        let index = match r.read_u16() {
            Ok(v) => v,
            Err(e) => {
                return Err(LookupError::Io(e));
            },
        };
        let table = match lookup {
            Some(t) => t,
            None => {
                return Err(LookupError::MissingLookup);
            },
        };
        match table.get(index as usize) {
            Some(s) => Ok(LookupValue(s.to_owned())),
            None => Err(
                LookupError::OutOfBounds { length: table.len(), index: index as usize },
            ),
        }
    }
}

} // verus!
