//! Primitive byte reader: a cursor over an in-memory byte buffer that
//! decodes fixed-width little-endian integers, booleans, raw byte runs,
//! and the variable-length unsigned integer used as a string length
//! (7 data bits per byte, high bit set while more bytes follow).

use vstd::arithmetic::div_mod::lemma_fundamental_div_mod;
use vstd::arithmetic::mul::{
    lemma_mul_inequality, lemma_mul_is_distributive_add, lemma_mul_is_distributive_add_other_way,
};
use vstd::arithmetic::power::{lemma_pow_adds, lemma_pow_positive, pow};
use vstd::prelude::*;

verus! {

/// Failure of the primitive reader layer: either the stream ended before
/// a required field was fully read, or a variable-length integer denotes
/// a value too large to hold in a machine word.
#[derive(Debug, Clone, Copy, PartialEq, Eq)]
pub enum IoError {
    UnexpectedEnd,
    LengthOverflow,
}

/// The little-endian unsigned 16-bit value of two bytes.
pub open spec fn le_u16(b0: u8, b1: u8) -> u16 {
    (b0 + 256 * b1) as u16
}

/// The little-endian unsigned 32-bit value of four bytes.
pub open spec fn le_u32(b0: u8, b1: u8, b2: u8, b3: u8) -> u32 {
    (b0 + 256 * b1 + 65536 * b2 + 16777216 * b3) as u32
}

/// The little-endian two's-complement 16-bit value of two bytes.
pub open spec fn le_i16(b0: u8, b1: u8) -> i16 {
    if b0 + 256 * b1 < 32768 {
        (b0 + 256 * b1) as i16
    } else {
        (b0 + 256 * b1 - 65536) as i16
    }
}

/// The little-endian two's-complement 32-bit value of four bytes.
pub open spec fn le_i32(b0: u8, b1: u8, b2: u8, b3: u8) -> i32 {
    let v = b0 + 256 * b1 + 65536 * b2 + 16777216 * b3;
    if v < 2147483648 {
        v as i32
    } else {
        (v - 4294967296) as i32
    }
}

/// Decodes a variable-length unsigned integer from the front of `s`:
/// each byte supplies its low 7 bits, least significant group first,
/// and the first byte with a clear high bit ends the encoding. Yields
/// the decoded value and the number of bytes consumed, or `None` when
/// no terminating byte is present.
pub open spec fn varint_parse(s: Seq<u8>) -> Option<(nat, int)>
    decreases s.len(),
{
    if s.len() == 0 {
        None
    } else if s[0] < 128 {
        Some((s[0] as nat, 1))
    } else {
        match varint_parse(s.skip(1)) {
            None => None,
            Some((v, n)) => Some((((s[0] - 128) as nat + 128 * v) as nat, n + 1)),
        }
    }
}

/// For positive `m`, a factor no greater than `max / m` keeps the
/// product within `max`.
proof fn lemma_within_div_mul(x: int, m: int, max: int)
    requires
        m > 0,
        0 <= x <= max / m,
        max >= 0,
    ensures
        x * m <= max,
{
    lemma_fundamental_div_mod(max, m);
    vstd::arithmetic::div_mod::lemma_mod_division_less_than_divisor(max, m);
    lemma_mul_inequality(x, max / m, m);
    vstd::arithmetic::mul::lemma_mul_is_commutative(m, max / m);
}

/// For positive `m`, a factor greater than `max / m` pushes the product
/// beyond `max`.
proof fn lemma_exceeds_div_mul(x: int, m: int, max: int)
    requires
        m > 0,
        max >= 0,
        x > max / m,
    ensures
        x * m > max,
{
    lemma_fundamental_div_mod(max, m);
    vstd::arithmetic::div_mod::lemma_mod_division_less_than_divisor(max, m);
    lemma_mul_inequality(max / m + 1, x, m);
    lemma_mul_is_distributive_add_other_way(m, max / m, 1);
    vstd::arithmetic::mul::lemma_mul_is_commutative(m, max / m);
}

/// A cursor over an owned byte buffer; all decoding walks one of these
/// forward and never reads a byte twice.
pub struct Reader {
    data: Vec<u8>,
    pos: usize,
}

impl Reader {
    /// The whole underlying buffer.
    pub closed spec fn bytes(&self) -> Seq<u8> {
        self.data@
    }

    /// How many bytes have been consumed so far.
    pub closed spec fn position(&self) -> int {
        self.pos as int
    }

    pub open spec fn wf(&self) -> bool {
        &&& 0 <= self.position() <= self.bytes().len()
        &&& self.bytes().len() <= usize::MAX
    }

    /// The bytes not yet consumed.
    pub open spec fn remaining(&self) -> Seq<u8> {
        self.bytes().skip(self.position())
    }

    pub fn new(data: Vec<u8>) -> (r: Reader)
        ensures
            r.wf(),
            r.bytes() == data@,
            r.position() == 0,
    {
        proof {
            vstd::std_specs::vec::axiom_spec_len(&data);
        }
        Reader { data, pos: 0 }
    }

    /// Reads one byte; fails when the stream is exhausted.
    pub fn read_u8(&mut self) -> (r: Result<u8, IoError>)
        requires
            old(self).wf(),
        ensures
            final(self).wf(),
            final(self).bytes() == old(self).bytes(),
            match r {
                Ok(b) => old(self).remaining().len() >= 1 && b == old(self).remaining()[0]
                    && final(self).position() == old(self).position() + 1,
                Err(e) => e == IoError::UnexpectedEnd && old(self).remaining().len() == 0
                    && final(self).position() == old(self).position(),
            },
    {
        if self.pos < self.data.len() {
            let b = self.data[self.pos];
            self.pos = self.pos + 1;
            Ok(b)
        } else {
            Err(IoError::UnexpectedEnd)
        }
    }

    /// Reads one byte as a boolean: any nonzero byte is true.
    pub fn read_bool(&mut self) -> (r: Result<bool, IoError>)
        requires
            old(self).wf(),
        ensures
            final(self).wf(),
            final(self).bytes() == old(self).bytes(),
            match r {
                Ok(b) => old(self).remaining().len() >= 1 && b == (old(self).remaining()[0] != 0)
                    && final(self).position() == old(self).position() + 1,
                Err(e) => e == IoError::UnexpectedEnd && old(self).remaining().len() == 0
                    && final(self).position() == old(self).position(),
            },
    {
        match self.read_u8() {
            Ok(b) => Ok(b != 0),
            Err(e) => Err(e),
        }
    }

    /// Reads a little-endian unsigned 16-bit integer; fails, consuming
    /// nothing, when fewer than two bytes remain.
    pub fn read_u16(&mut self) -> (r: Result<u16, IoError>)
        requires
            old(self).wf(),
        ensures
            final(self).wf(),
            final(self).bytes() == old(self).bytes(),
            match r {
                Ok(v) => old(self).remaining().len() >= 2
                    && v == le_u16(old(self).remaining()[0], old(self).remaining()[1])
                    && final(self).position() == old(self).position() + 2,
                Err(e) => e == IoError::UnexpectedEnd && old(self).remaining().len() < 2
                    && final(self).position() == old(self).position(),
            },
    {
        if self.data.len() - self.pos >= 2 {
            let b0 = self.data[self.pos];
            let b1 = self.data[self.pos + 1];
            self.pos = self.pos + 2;
            Ok(b0 as u16 + (b1 as u16) * 256)
        } else {
            Err(IoError::UnexpectedEnd)
        }
    }

    /// Reads a little-endian signed 16-bit integer.
    pub fn read_i16(&mut self) -> (r: Result<i16, IoError>)
        requires
            old(self).wf(),
        ensures
            final(self).wf(),
            final(self).bytes() == old(self).bytes(),
            match r {
                Ok(v) => old(self).remaining().len() >= 2
                    && v == le_i16(old(self).remaining()[0], old(self).remaining()[1])
                    && final(self).position() == old(self).position() + 2,
                Err(e) => e == IoError::UnexpectedEnd && old(self).remaining().len() < 2
                    && final(self).position() == old(self).position(),
            },
    {
        match self.read_u16() {
            Ok(v) => {
                if v < 32768 {
                    Ok(v as i16)
                } else {
                    Ok(((v as i32) - 65536) as i16)
                }
            },
            Err(e) => Err(e),
        }
    }

    /// Reads a little-endian unsigned 32-bit integer; fails, consuming
    /// nothing, when fewer than four bytes remain.
    pub fn read_u32(&mut self) -> (r: Result<u32, IoError>)
        requires
            old(self).wf(),
        ensures
            final(self).wf(),
            final(self).bytes() == old(self).bytes(),
            match r {
                Ok(v) => old(self).remaining().len() >= 4
                    && v == le_u32(
                    old(self).remaining()[0],
                    old(self).remaining()[1],
                    old(self).remaining()[2],
                    old(self).remaining()[3],
                ) && final(self).position() == old(self).position() + 4,
                Err(e) => e == IoError::UnexpectedEnd && old(self).remaining().len() < 4
                    && final(self).position() == old(self).position(),
            },
    {
        if self.data.len() - self.pos >= 4 {
            let b0 = self.data[self.pos];
            let b1 = self.data[self.pos + 1];
            let b2 = self.data[self.pos + 2];
            let b3 = self.data[self.pos + 3];
            self.pos = self.pos + 4;
            Ok(b0 as u32 + (b1 as u32) * 256 + (b2 as u32) * 65536 + (b3 as u32) * 16777216)
        } else {
            Err(IoError::UnexpectedEnd)
        }
    }

    /// Reads a little-endian signed 32-bit integer.
    pub fn read_i32(&mut self) -> (r: Result<i32, IoError>)
        requires
            old(self).wf(),
        ensures
            final(self).wf(),
            final(self).bytes() == old(self).bytes(),
            match r {
                Ok(v) => old(self).remaining().len() >= 4
                    && v == le_i32(
                    old(self).remaining()[0],
                    old(self).remaining()[1],
                    old(self).remaining()[2],
                    old(self).remaining()[3],
                ) && final(self).position() == old(self).position() + 4,
                Err(e) => e == IoError::UnexpectedEnd && old(self).remaining().len() < 4
                    && final(self).position() == old(self).position(),
            },
    {
        match self.read_u32() {
            Ok(v) => {
                if v < 2147483648 {
                    Ok(v as i32)
                } else {
                    Ok(((v as i64) - 4294967296) as i32)
                }
            },
            Err(e) => Err(e),
        }
    }

    /// Reads exactly `n` raw bytes; fails, consuming nothing, when fewer
    /// remain.
    pub fn read_bytes(&mut self, n: usize) -> (r: Result<Vec<u8>, IoError>)
        requires
            old(self).wf(),
        ensures
            final(self).wf(),
            final(self).bytes() == old(self).bytes(),
            match r {
                Ok(v) => old(self).remaining().len() >= n && v@ == old(self).remaining().take(
                    n as int,
                ) && final(self).position() == old(self).position() + n,
                Err(e) => e == IoError::UnexpectedEnd && old(self).remaining().len() < n
                    && final(self).position() == old(self).position(),
            },
    {
        if self.data.len() - self.pos >= n {
            let mut out: Vec<u8> = Vec::new();
            let mut i: usize = 0;
            while i < n
                invariant
                    self.wf(),
                    i <= n,
                    n <= self.bytes().len() - self.position(),
                    out@.len() == i,
                    forall|j: int| 0 <= j < i ==> out@[j] == self.bytes()[self.position() + j],
                decreases n - i,
            {
                let b = self.data[self.pos + i];
                out.push(b);
                i = i + 1;
            }
            self.pos = self.pos + n;
            proof {
                assert(out@ =~= old(self).remaining().take(n as int));
            }
            Ok(out)
        } else {
            Err(IoError::UnexpectedEnd)
        }
    }
    /// Reads a variable-length unsigned integer. Overlong encodings are
    /// accepted; an encoding whose mathematical value does not fit in a
    /// machine word fails with `LengthOverflow`, found by scanning the
    /// whole encoding, so that the two errors stay distinct.
    pub fn read_varint(&mut self) -> (r: Result<usize, IoError>)
        requires
            old(self).wf(),
        ensures
            final(self).wf(),
            final(self).bytes() == old(self).bytes(),
            old(self).position() <= final(self).position(),
            match r {
                Ok(value) => varint_parse(old(self).remaining()) matches Some((v, n)) && v
                    == value as nat && v <= usize::MAX && final(self).position() == old(
                    self,
                ).position() + n,
                Err(IoError::UnexpectedEnd) => varint_parse(old(self).remaining()) is None,
                Err(IoError::LengthOverflow) => varint_parse(old(self).remaining()) matches Some(
                    (v, n),
                ) && v > usize::MAX,
            },
    {
        let ghost s = old(self).remaining();
        let mut result: usize = 0;
        let mut mult: usize = 1;
        let mut mult_ok: bool = true;
        let mut overflow: bool = false;
        let ghost mut k: int = 0;
        proof {
            vstd::arithmetic::power::lemma_pow0(128);
            assert(s.skip(0) =~= s);
        }
        loop
            invariant
                self.wf(),
                self.bytes() == old(self).bytes(),
                0 <= k <= s.len(),
                s == old(self).remaining(),
                self.position() == old(self).position() + k,
                !overflow ==> result < pow(128, k as nat),
                !overflow && mult_ok ==> mult == pow(128, k as nat),
                !overflow && !mult_ok ==> pow(128, k as nat) > usize::MAX,
                !overflow ==> match varint_parse(s.skip(k)) {
                    None => varint_parse(s) is None,
                    Some((v, n)) => varint_parse(s) == Some(
                        ((result + pow(128, k as nat) * v) as nat, k + n),
                    ),
                },
                overflow ==> (varint_parse(s) is Some <==> varint_parse(s.skip(k)) is Some),
                overflow ==> match varint_parse(s) {
                    None => true,
                    Some((v, n)) => v > usize::MAX,
                },
            decreases s.len() - k,
        {
            proof {
                lemma_pow_positive(128, k as nat);
            }
            let byte = match self.read_u8() {
                Ok(b) => b,
                Err(_) => {
                    assert(s.skip(k).len() == 0);
                    return Err(IoError::UnexpectedEnd);
                },
            };
            assert(byte == s.skip(k)[0]);
            let low: u8 = if byte >= 128 {
                byte - 128
            } else {
                byte
            };
            proof {
                broadcast use vstd::arithmetic::mul::lemma_mul_is_commutative;

                if byte >= 128 {
                    assert(s.skip(k).skip(1) =~= s.skip(k + 1));
                }
                // The value denoted by the rest of the encoding, if any,
                // is at least `low`.
                match varint_parse(s.skip(k)) {
                    None => {},
                    Some((v, n)) => {
                        assert(v >= low);
                    },
                }
            }
            if !overflow && low != 0 {
                let ghost p = pow(128, k as nat);
                if !mult_ok {
                    proof {
                        broadcast use vstd::arithmetic::mul::lemma_mul_is_commutative;

                        match varint_parse(s.skip(k)) {
                            None => {},
                            Some((v, n)) => {
                                lemma_mul_inequality(1, v as int, p);
                            },
                        }
                    }
                    overflow = true;
                } else if (low as usize) > usize::MAX / mult {
                    proof {
                        broadcast use vstd::arithmetic::mul::lemma_mul_is_commutative;

                        lemma_exceeds_div_mul(low as int, mult as int, usize::MAX as int);
                        match varint_parse(s.skip(k)) {
                            None => {},
                            Some((v, n)) => {
                                lemma_mul_inequality(low as int, v as int, p);
                            },
                        }
                    }
                    overflow = true;
                } else {
                    proof {
                        lemma_within_div_mul(low as int, mult as int, usize::MAX as int);
                    }
                    let term: usize = (low as usize) * mult;
                    if term > usize::MAX - result {
                        proof {
                            broadcast use vstd::arithmetic::mul::lemma_mul_is_commutative;

                            match varint_parse(s.skip(k)) {
                                None => {},
                                Some((v, n)) => {
                                    lemma_mul_inequality(low as int, v as int, p);
                                },
                            }
                        }
                        overflow = true;
                    } else {
                        result = result + term;
                    }
                }
            }
            if byte < 128 {
                proof {
                    broadcast use vstd::arithmetic::mul::lemma_mul_is_commutative;

                    assert(varint_parse(s.skip(k)) == Some((byte as nat, 1int)));
                }
                if overflow {
                    return Err(IoError::LengthOverflow);
                }
                proof {
                    broadcast use vstd::arithmetic::mul::lemma_mul_is_commutative;

                    if low == 0 {
                        vstd::arithmetic::mul::lemma_mul_by_zero_is_zero(pow(128, k as nat));
                    }
                }
                return Ok(result);
            }
            // Continuation byte: shift the accumulation window up 7 bits.
            proof {
                broadcast use vstd::arithmetic::mul::lemma_mul_is_commutative;

                let p = pow(128, k as nat);
                lemma_pow_adds(128, k as nat, 1);
                vstd::arithmetic::power::lemma_pow1(128);
                assert(pow(128, (k + 1) as nat) == p * 128);
                lemma_pow_positive(128, k as nat);
                assert(s.skip(k).skip(1) =~= s.skip(k + 1));
                if !overflow {
                    // Re-shape the parse relation for the next iteration.
                    match varint_parse(s.skip(k + 1)) {
                        None => {
                            assert(varint_parse(s.skip(k)) is None);
                        },
                        Some((v2, n2)) => {
                            assert(varint_parse(s.skip(k)) == Some(
                                ((low + 128 * v2) as nat, n2 + 1),
                            ));
                            assert(p * ((low + 128 * v2) as int) == p * (low as int) + (p * 128) * (
                            v2 as int)) by {
                                lemma_mul_is_distributive_add(p, low as int, 128 * v2 as int);
                                vstd::arithmetic::mul::lemma_mul_is_associative(p, 128, v2 as int);
                            };
                        },
                    }
                    // The accumulated value stays below the next power.
                    lemma_mul_inequality(low as int, 127, p);
                    assert(result < pow(128, (k + 1) as nat));
                }
                k = k + 1;
            }
            if !overflow && mult_ok {
                if mult <= usize::MAX / 128 {
                    proof {
                        lemma_within_div_mul(mult as int, 128, usize::MAX as int);
                    }
                    mult = mult * 128;
                } else {
                    proof {
                        lemma_exceeds_div_mul(mult as int, 128, usize::MAX as int);
                    }
                    mult_ok = false;
                }
            }
        }
    }
}

/// The decoded form of a variable-length length prefix.
pub struct StringLength(pub usize);

impl StringLength {
    /// Reads a variable-length length prefix from the stream.
    pub(crate) fn decode(r: &mut Reader) -> (res: Result<StringLength, IoError>)
        requires
            old(r).wf(),
        ensures
            final(r).wf(),
            final(r).bytes() == old(r).bytes(),
            old(r).position() <= final(r).position(),
            match res {
                Ok(value) => varint_parse(old(r).remaining()) == Some(
                    (value.0 as nat, final(r).position() - old(r).position()),
                ),
                Err(IoError::UnexpectedEnd) => varint_parse(old(r).remaining()) is None,
                Err(IoError::LengthOverflow) => varint_parse(old(r).remaining()) matches Some(
                    (v, n),
                ) && v > usize::MAX,
            },
    {
        match r.read_varint() {
            Ok(v) => Ok(StringLength(v)),
            Err(e) => Err(e),
        }
    }
}

/// The byte sequence that the variable-length scheme uses for `v`:
/// 7 bits per byte, least significant group first, high bit set on all
/// bytes but the last.
pub open spec fn varint_encoding(v: nat) -> Seq<u8>
    decreases v,
{
    if v < 128 {
        seq![v as u8]
    } else {
        seq![(128 + v % 128) as u8] + varint_encoding(v / 128)
    }
}

/// Decoding a variable-length encoding recovers the encoded value and
/// consumes exactly the encoding.
pub proof fn lemma_varint_round_trip(v: nat)
    ensures
        varint_parse(varint_encoding(v)) == Some((v, varint_encoding(v).len() as int)),
    decreases v,
{
    if v < 128 {
        assert(varint_encoding(v) == seq![v as u8]);
    } else {
        lemma_varint_round_trip(v / 128);
        let s = varint_encoding(v);
        let tail = varint_encoding(v / 128);
        assert(s.skip(1) =~= tail);
        assert(s[0] == (128 + v % 128) as u8);
        lemma_fundamental_div_mod(v as int, 128);
        vstd::arithmetic::div_mod::lemma_mod_division_less_than_divisor(v as int, 128);
        assert(varint_parse(s) == Some((v, tail.len() as int + 1)));
    }
}

/// A successful decode of a prefix is unchanged by appending more bytes.
pub proof fn lemma_varint_parse_prefix(a: Seq<u8>, b: Seq<u8>)
    ensures
        varint_parse(a) matches Some((v, n)) ==> varint_parse(a + b) == Some((v, n)),
    decreases a.len(),
{
    if a.len() > 0 {
        assert((a + b)[0] == a[0]);
        if a[0] >= 128 {
            lemma_varint_parse_prefix(a.skip(1), b);
            assert((a + b).skip(1) =~= a.skip(1) + b);
        }
    }
}

/// Writes the variable-length encoding of `v`.
pub fn encode_varint(v: usize) -> (r: Vec<u8>)
    ensures
        r@ == varint_encoding(v as nat),
{
    let mut out: Vec<u8> = Vec::new();
    let mut x: usize = v;
    loop
        invariant
            varint_encoding(v as nat) =~= out@ + varint_encoding(x as nat),
        decreases x,
    {
        if x < 128 {
            out.push(x as u8);
            proof {
                assert(out@ =~= varint_encoding(v as nat));
            }
            return out;
        }
        let b: u8 = (x % 128) as u8 + 128;
        out.push(b);
        proof {
            let ghost old_tail = varint_encoding(x as nat);
            assert(old_tail == seq![(128 + (x as nat) % 128) as u8] + varint_encoding(
                (x as nat) / 128,
            ));
            assert(b == (128 + (x as nat) % 128) as u8);
            assert(varint_encoding(v as nat) =~= out@ + varint_encoding(((x as nat) / 128)));
        }
        x = x / 128;
        proof {
            assert(varint_encoding(v as nat) =~= out@ + varint_encoding(x as nat));
        }
    }
}

} // verus!
