//! String decoders: a length-prefixed UTF-8 form and a run-length-encoded
//! form that expands (count, byte) pairs before UTF-8 validation, together
//! with the matching encoders and the round-trip laws that connect them.

use crate::reader::{
    encode_varint, le_u16, lemma_varint_parse_prefix, lemma_varint_round_trip, varint_encoding,
    varint_parse, IoError, Reader, StringLength,
};
use vstd::prelude::*;
use vstd::string::StrSliceExecFns;
use vstd::utf8::{decode_utf8, encode_utf8, valid_utf8};

verus! {

/// Failure of a string decode: the stream ended (or a length prefix was
/// unrepresentable), or the decoded bytes are not valid UTF-8.
#[derive(Debug, Clone, Copy, PartialEq, Eq)]
pub enum StringReadError {
    Io(IoError),
    Utf,
}

/// Relies on `String::from_utf8`: it succeeds exactly when the bytes are
/// valid UTF-8, and then yields the string whose characters those bytes
/// encode.
#[verifier::external_body]
fn string_from_utf8(bytes: Vec<u8>) -> (r: Option<String>)
    ensures
        r is Some <==> valid_utf8(bytes@),
        r matches Some(s) ==> s@ == decode_utf8(bytes@),
{
    String::from_utf8(bytes).ok()
}

/// Decodes a length-prefixed string from the front of `s`: a
/// variable-length byte count, that many raw bytes, then UTF-8
/// validation. Yields the characters and the number of bytes consumed,
/// or the exact error the decoder reports.
pub open spec fn lp_parse(s: Seq<u8>) -> Result<(Seq<char>, int), StringReadError> {
    match varint_parse(s) {
        None => Err(StringReadError::Io(IoError::UnexpectedEnd)),
        Some((len, n)) => if len > usize::MAX {
            Err(StringReadError::Io(IoError::LengthOverflow))
        } else if s.len() < n + len {
            Err(StringReadError::Io(IoError::UnexpectedEnd))
        } else if valid_utf8(s.subrange(n, n + len)) {
            Ok((decode_utf8(s.subrange(n, n + len)), n + len))
        } else {
            Err(StringReadError::Utf)
        },
    }
}

/// A string stored in the length-prefixed form.
#[derive(Debug)]
pub struct NonRleString(pub String);

impl NonRleString {
    /// Reads a length-prefixed UTF-8 string.
    pub(crate) fn decode(r: &mut Reader) -> (res: Result<NonRleString, StringReadError>)
        requires
            old(r).wf(),
        ensures
            final(r).wf(),
            final(r).bytes() == old(r).bytes(),
            old(r).position() <= final(r).position(),
            match res {
                Ok(v) => lp_parse(old(r).remaining()) matches Ok((cs, n)) && v.0@ == cs
                    && final(r).position() == old(r).position() + n,
                Err(e) => lp_parse(old(r).remaining()) == Err::<(Seq<char>, int), _>(e),
            },
    {
        let ghost s = old(r).remaining();
        let len = match StringLength::decode(r) {
            Ok(l) => l.0,
            Err(e) => {
                return Err(StringReadError::Io(e));
            },
        };
        let ghost n1 = r.position() - old(r).position();
        proof {
            assert(r.remaining() =~= s.skip(n1));
        }
        let bytes = match r.read_bytes(len) {
            Ok(b) => b,
            Err(e) => {
                return Err(StringReadError::Io(e));
            },
        };
        proof {
            assert(bytes@ =~= s.subrange(n1, n1 + len as int));
        }
        match string_from_utf8(bytes) {
            Some(st) => Ok(NonRleString(st)),
            None => Err(StringReadError::Utf),
        }
    }
}

/// Expands a run of (count, byte) pairs; a dangling final byte is
/// dropped.
pub open spec fn rle_expand(pairs: Seq<u8>) -> Seq<u8>
    decreases pairs.len(),
{
    if pairs.len() < 2 {
        Seq::empty()
    } else {
        Seq::new(pairs[0] as nat, |i: int| pairs[1]) + rle_expand(pairs.skip(2))
    }
}

/// Decodes a run-length-encoded string from the front of `s`: a two-byte
/// total pair-stream length, the pairs (an odd trailing byte is
/// ignored), then UTF-8 validation of the expansion.
pub open spec fn rle_parse(s: Seq<u8>) -> Result<(Seq<char>, int), StringReadError> {
    if s.len() < 2 {
        Err(StringReadError::Io(IoError::UnexpectedEnd))
    } else {
        let body = 2 * ((le_u16(s[0], s[1]) as int) / 2);
        if s.len() < 2 + body {
            Err(StringReadError::Io(IoError::UnexpectedEnd))
        } else if valid_utf8(rle_expand(s.subrange(2, 2 + body))) {
            Ok((decode_utf8(rle_expand(s.subrange(2, 2 + body))), 2 + body))
        } else {
            Err(StringReadError::Utf)
        }
    }
}

/// A string stored in the run-length-encoded form.
#[derive(Debug)]
pub struct RleString(pub String);

impl RleString {
    /// Reads a run-length-encoded UTF-8 string.
    pub(crate) fn decode(r: &mut Reader) -> (res: Result<RleString, StringReadError>)
        requires
            old(r).wf(),
        ensures
            final(r).wf(),
            final(r).bytes() == old(r).bytes(),
            old(r).position() <= final(r).position(),
            match res {
                Ok(v) => rle_parse(old(r).remaining()) matches Ok((cs, n)) && v.0@ == cs
                    && final(r).position() == old(r).position() + n,
                Err(e) => rle_parse(old(r).remaining()) == Err::<(Seq<char>, int), _>(e),
            },
    {
        let ghost s = old(r).remaining();
        let total = match r.read_u16() {
            Ok(v) => v,
            Err(e) => {
                return Err(StringReadError::Io(e));
            },
        };
        let ghost body = 2 * ((total as int) / 2);
        let pairs = total / 2;
        let mut bytes: Vec<u8> = Vec::new();
        let mut i: u16 = 0;
        while i < pairs
            invariant
                old(r).wf(),
                r.wf(),
                r.bytes() == old(r).bytes(),
                s == old(r).remaining(),
                s.len() == r.bytes().len() - old(r).position(),
                s.len() >= 2,
                total == le_u16(s[0], s[1]),
                pairs == total / 2,
                body == 2 * ((total as int) / 2),
                0 <= i <= pairs,
                r.position() == old(r).position() + 2 + 2 * (i as int),
                s.len() >= 2 + body ==> rle_expand(s.subrange(2, 2 + body)) == bytes@
                    + rle_expand(s.subrange(2 + 2 * (i as int), 2 + body)),
            decreases pairs - i,
        {
            proof {
                assert(r.remaining() =~= s.skip(2 + 2 * (i as int)));
            }
            let t = match r.read_u8() {
                Ok(v) => v,
                Err(_) => {
                    return Err(StringReadError::Io(IoError::UnexpectedEnd));
                },
            };
            proof {
                assert(r.remaining() =~= s.skip(2 + 2 * (i as int) + 1));
            }
            let b = match r.read_u8() {
                Ok(v) => v,
                Err(_) => {
                    return Err(StringReadError::Io(IoError::UnexpectedEnd));
                },
            };
            assert(t == s[2 + 2 * (i as int)]);
            assert(b == s[2 + 2 * (i as int) + 1]);
            let ghost base = bytes@;
            let mut j: u8 = 0;
            while j < t
                invariant
                    j <= t,
                    bytes@ == base + Seq::new(j as nat, |x: int| b),
                decreases t - j,
            {
                bytes.push(b);
                proof {
                    assert(base + Seq::new((j + 1) as nat, |x: int| b) =~= (base + Seq::new(
                        j as nat,
                        |x: int| b,
                    )).push(b));
                }
                j = j + 1;
            }
            proof {
                if s.len() >= 2 + body {
                    let pre = s.subrange(2 + 2 * (i as int), 2 + body);
                    assert(pre.len() >= 2);
                    assert(pre[0] == t);
                    assert(pre[1] == b);
                    assert(pre.skip(2) =~= s.subrange(2 + 2 * (i as int) + 2, 2 + body));
                    assert(Seq::new(pre[0] as nat, |x: int| pre[1]) =~= Seq::new(
                        t as nat,
                        |x: int| b,
                    ));
                    assert((base + Seq::new(t as nat, |x: int| b)) + rle_expand(
                        s.subrange(2 + 2 * (i as int) + 2, 2 + body),
                    ) =~= base + (Seq::new(t as nat, |x: int| b) + rle_expand(
                        s.subrange(2 + 2 * (i as int) + 2, 2 + body),
                    )));
                }
            }
            i = i + 1;
        }
        proof {
            assert(s.len() >= 2 + body);
            assert(s.subrange(2 + body, 2 + body).len() < 2);
            assert(bytes@ + Seq::<u8>::empty() =~= bytes@);
            assert(rle_expand(s.subrange(2, 2 + body)) == bytes@);
        }
        match string_from_utf8(bytes) {
            Some(st) => Ok(RleString(st)),
            None => Err(StringReadError::Utf),
        }
    }
}

/// The length-prefixed encoding of a character sequence.
pub open spec fn lp_encoding(cs: Seq<char>) -> Seq<u8> {
    varint_encoding(encode_utf8(cs).len()) + encode_utf8(cs)
}

/// Round trip for the length-prefixed form: decoding an encoding
/// recovers exactly the encoded string and consumes exactly the
/// encoding.
pub proof fn lemma_lp_round_trip(cs: Seq<char>)
    requires
        encode_utf8(cs).len() <= usize::MAX,
    ensures
        lp_parse(lp_encoding(cs)) == Ok::<_, StringReadError>(
            (cs, lp_encoding(cs).len() as int),
        ),
{
    let bytes = encode_utf8(cs);
    let prefix = varint_encoding(bytes.len());
    let s = lp_encoding(cs);
    lemma_varint_round_trip(bytes.len());
    lemma_varint_parse_prefix(prefix, bytes);
    assert(varint_parse(s) == Some((bytes.len(), prefix.len() as int)));
    assert(s.subrange(prefix.len() as int, prefix.len() as int + bytes.len() as int) =~= bytes);
    vstd::utf8::encode_utf8_valid_utf8(cs);
    vstd::utf8::encode_utf8_decode_utf8(cs);
}

/// The pair stream of the simple run-length encoder: each byte becomes
/// a (1, byte) pair.
pub open spec fn rle_pairs(bytes: Seq<u8>) -> Seq<u8> {
    Seq::new(
        2 * bytes.len(),
        |i: int|
            if i % 2 == 0 {
                1u8
            } else {
                bytes[i / 2]
            },
    )
}

/// Expanding the simple pair stream recovers the bytes.
pub proof fn lemma_rle_pairs_expand(bytes: Seq<u8>)
    ensures
        rle_expand(rle_pairs(bytes)) == bytes,
    decreases bytes.len(),
{
    let p = rle_pairs(bytes);
    if bytes.len() == 0 {
        assert(rle_expand(p) =~= bytes);
    } else {
        lemma_rle_pairs_expand(bytes.drop_first());
        assert(p.skip(2) =~= rle_pairs(bytes.drop_first()));
        assert(rle_expand(p) == Seq::new(p[0] as nat, |i: int| p[1]) + rle_expand(p.skip(2)));
        assert(Seq::new(p[0] as nat, |i: int| p[1]) + bytes.drop_first() =~= bytes);
    }
}

/// The run-length encoding of a character sequence, one pair per byte.
pub open spec fn rle_encoding(cs: Seq<char>) -> Seq<u8> {
    let bytes = encode_utf8(cs);
    seq![((2 * bytes.len()) % 256) as u8, ((2 * bytes.len()) / 256) as u8] + rle_pairs(bytes)
}

/// Round trip for the run-length form: decoding an encoding recovers
/// exactly the encoded string, provided the pair stream length fits the
/// two-byte header.
pub proof fn lemma_rle_round_trip(cs: Seq<char>)
    requires
        encode_utf8(cs).len() <= 32767,
    ensures
        rle_parse(rle_encoding(cs)) == Ok::<_, StringReadError>(
            (cs, rle_encoding(cs).len() as int),
        ),
{
    let bytes = encode_utf8(cs);
    let s = rle_encoding(cs);
    let total = 2 * bytes.len();
    assert(le_u16(s[0], s[1]) == total) by {
        vstd::arithmetic::div_mod::lemma_fundamental_div_mod(total as int, 256);
        vstd::arithmetic::div_mod::lemma_mod_division_less_than_divisor(total as int, 256);
    };
    assert(s.len() == 2 + total);
    assert(2 * ((total as int) / 2) == total);
    assert(s.subrange(2, 2 + total as int) =~= rle_pairs(bytes));
    lemma_rle_pairs_expand(bytes);
    vstd::utf8::encode_utf8_valid_utf8(cs);
    vstd::utf8::encode_utf8_decode_utf8(cs);
}

/// Writes the length-prefixed encoding of `s`; reading it back with
/// `NonRleString::read` yields exactly `s`.
pub fn encode_lp_string(s: &str) -> (r: Vec<u8>)
    ensures
        r@ == lp_encoding(s@),
        lp_parse(r@) == Ok::<_, StringReadError>((s@, r@.len() as int)),
{
    let bytes = s.as_bytes_vec();
    let mut out = encode_varint(bytes.len());
    let ghost prefix = varint_encoding(bytes@.len());
    let mut i: usize = 0;
    while i < bytes.len()
        invariant
            0 <= i <= bytes.len(),
            out@ == prefix + bytes@.take(i as int),
        decreases bytes.len() - i,
    {
        let b = bytes[i];
        out.push(b);
        proof {
            assert(prefix + bytes@.take(i + 1) =~= (prefix + bytes@.take(i as int)).push(b));
        }
        i = i + 1;
    }
    proof {
        assert(out@ =~= lp_encoding(s@));
        lemma_lp_round_trip(s@);
    }
    out
}

/// Writes the run-length encoding of `s`, one pair per byte; yields
/// nothing when the pair stream would not fit the two-byte header.
/// Reading a produced encoding back with `RleString::read` yields
/// exactly `s`.
pub fn encode_rle_string(s: &str) -> (r: Option<Vec<u8>>)
    ensures
        match r {
            Some(v) => encode_utf8(s@).len() <= 32767 && v@ == rle_encoding(s@) && rle_parse(v@)
                == Ok::<_, StringReadError>((s@, v@.len() as int)),
            None => encode_utf8(s@).len() > 32767,
        },
{
    let bytes = s.as_bytes_vec();
    if bytes.len() > 32767 {
        return None;
    }
    let total: u16 = (bytes.len() as u16) * 2;
    let mut out: Vec<u8> = Vec::new();
    out.push((total % 256) as u8);
    out.push((total / 256) as u8);
    let mut i: usize = 0;
    while i < bytes.len()
        invariant
            0 <= i <= bytes.len(),
            bytes@.len() <= 32767,
            total == 2 * bytes@.len(),
            out@.len() == 2 + 2 * i,
            out@[0] == ((2 * bytes@.len()) % 256) as u8,
            out@[1] == ((2 * bytes@.len()) / 256) as u8,
            forall|j: int|
                2 <= j < 2 + 2 * i ==> #[trigger] out@[j] == (if j % 2 == 0 {
                    1u8
                } else {
                    bytes@[(j - 2) / 2]
                }),
        decreases bytes.len() - i,
    {
        out.push(1);
        let b = bytes[i];
        out.push(b);
        i = i + 1;
    }
    proof {
        let hdr = seq![
            ((2 * bytes@.len()) % 256) as u8,
            ((2 * bytes@.len()) / 256) as u8,
        ];
        let p = rle_pairs(bytes@);
        let enc = rle_encoding(s@);
        assert(enc == hdr + p);
        assert(out@.len() == enc.len());
        assert forall|x: int| 0 <= x < out@.len() implies out@[x] == enc[x] by {
            if x >= 2 {
                vstd::seq::axiom_seq_add_index2(hdr, p, x);
                assert(p[x - 2] == (if x % 2 == 0 {
                    1u8
                } else {
                    bytes@[(x - 2) / 2]
                }));
            } else {
                vstd::seq::axiom_seq_add_index1(hdr, p, x);
            }
        }
        assert(out@ =~= enc);
        lemma_rle_round_trip(s@);
    }
    Some(out)
}

} // verus!
