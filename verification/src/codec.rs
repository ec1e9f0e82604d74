//! The binary wire format shared by the persisted stores. Every multi-byte
//! integer is little endian; a string is its UTF-8 bytes prefixed by their
//! count; a flag is a single 0-or-1 byte. Each piece has a specification
//! encoder, a specification decoder over the remaining input, executable
//! counterparts proved against them, and a round-trip lemma.

use vstd::prelude::*;
use vstd::bytes::{
    lemma_auto_spec_u64_to_from_le_bytes, spec_u64_from_le_bytes, spec_u64_to_le_bytes,
    u64_from_le_bytes, u64_to_le_bytes,
};
use vstd::slice::{slice_subrange, slice_to_vec};
use vstd::string::StrSliceExecFns;
use vstd::utf8::{decode_utf8, encode_utf8, encode_utf8_decode_utf8, encode_utf8_valid_utf8,
    valid_utf8};

verus! {

/// An unsigned integer on the wire: eight little-endian bytes.
pub open spec fn spec_enc_u64(x: u64) -> Seq<u8> {
    spec_u64_to_le_bytes(x)
}

/// A flag on the wire: one byte, 1 for true and 0 for false.
pub open spec fn spec_enc_flag(b: bool) -> Seq<u8> {
    seq![if b { 1u8 } else { 0u8 }]
}

/// A string on the wire: the count of its UTF-8 bytes, then those bytes.
pub open spec fn spec_enc_str(s: Seq<char>) -> Seq<u8> {
    spec_enc_u64(encode_utf8(s).len() as u64) + encode_utf8(s)
}

/// Whether the UTF-8 form of `s` is short enough for its length prefix.
/// Every string held in memory satisfies this.
pub open spec fn str_fits(s: Seq<char>) -> bool {
    encode_utf8(s).len() <= u64::MAX
}

/// Reads an integer from the front of `b`: the value of the first eight
/// bytes and the input that follows them, or nothing if `b` is shorter.
pub open spec fn spec_dec_u64(b: Seq<u8>) -> Option<(u64, Seq<u8>)> {
    if b.len() >= 8 {
        Option::Some((spec_u64_from_le_bytes(b.take(8)), b.skip(8)))
    } else {
        Option::None
    }
}

/// Reads a flag from the front of `b`; any first byte other than 0 or 1 is
/// a malformed store.
pub open spec fn spec_dec_flag(b: Seq<u8>) -> Option<(bool, Seq<u8>)> {
    if b.len() >= 1 && (b[0] == 0 || b[0] == 1) {
        Option::Some((b[0] == 1, b.skip(1)))
    } else {
        Option::None
    }
}

/// Reads a length-prefixed string from the front of `b`; the prefixed bytes
/// must be present and be valid UTF-8.
pub open spec fn spec_dec_str(b: Seq<u8>) -> Option<(Seq<char>, Seq<u8>)> {
    match spec_dec_u64(b) {
        Option::None => Option::None,
        Option::Some((n, rest)) => if rest.len() >= n && valid_utf8(rest.take(n as int)) {
            Option::Some((decode_utf8(rest.take(n as int)), rest.skip(n as int)))
        } else {
            Option::None
        },
    }
}

/// A signed window coordinate on the wire: the value shifted up by 2^31 so
/// that it is non-negative, then written as an integer.
pub open spec fn spec_enc_i32(x: i32) -> Seq<u8> {
    spec_enc_u64((x + 0x8000_0000) as u64)
}

/// Reads a signed coordinate from the front of `b`; the shifted value must
/// fit in 32 bits.
pub open spec fn spec_dec_i32(b: Seq<u8>) -> Option<(i32, Seq<u8>)> {
    match spec_dec_u64(b) {
        Option::None => Option::None,
        Option::Some((v, rest)) => if v <= 0xFFFF_FFFFu64 {
            Option::Some((((v - 0x8000_0000) as i32), rest))
        } else {
            Option::None
        },
    }
}

/// Decoding an encoded integer yields it back and consumes exactly its bytes.
pub proof fn lemma_dec_enc_u64(x: u64, rest: Seq<u8>)
    ensures
        spec_dec_u64(spec_enc_u64(x) + rest) == Option::Some((x, rest)),
{
    lemma_auto_spec_u64_to_from_le_bytes();
    assert((spec_enc_u64(x) + rest).take(8) =~= spec_enc_u64(x));
    assert((spec_enc_u64(x) + rest).skip(8) =~= rest);
}

/// Decoding an encoded coordinate yields it back and consumes its bytes.
pub proof fn lemma_dec_enc_i32(x: i32, rest: Seq<u8>)
    ensures
        spec_dec_i32(spec_enc_i32(x) + rest) == Option::Some((x, rest)),
{
    lemma_dec_enc_u64((x + 0x8000_0000) as u64, rest);
}

/// Decoding an encoded flag yields it back and consumes exactly its byte.
pub proof fn lemma_dec_enc_flag(b: bool, rest: Seq<u8>)
    ensures
        spec_dec_flag(spec_enc_flag(b) + rest) == Option::Some((b, rest)),
{
    assert((spec_enc_flag(b) + rest).skip(1) =~= rest);
}

/// Decoding an encoded string yields it back and consumes exactly its bytes.
pub proof fn lemma_dec_enc_str(s: Seq<char>, rest: Seq<u8>)
    requires
        str_fits(s),
    ensures
        spec_dec_str(spec_enc_str(s) + rest) == Option::Some((s, rest)),
{
    let bs = encode_utf8(s);
    lemma_dec_enc_u64(bs.len() as u64, bs + rest);
    assert(spec_enc_str(s) + rest =~= spec_enc_u64(bs.len() as u64) + (bs + rest));
    assert((bs + rest).take(bs.len() as int) =~= bs);
    assert((bs + rest).skip(bs.len() as int) =~= rest);
    encode_utf8_valid_utf8(s);
    encode_utf8_decode_utf8(s);
}

/// A string read from the wire costs at least its length prefix.
pub proof fn lemma_dec_str_consumes(b: Seq<u8>)
    ensures
        spec_dec_str(b) matches Option::Some(p) ==> p.1.len() <= b.len() - 8,
{
}

/// Appends the wire form of `x` to `out`.
pub fn write_u64(out: &mut Vec<u8>, x: u64)
    ensures
        final(out)@ == old(out)@ + spec_enc_u64(x),
{
    let mut bs = u64_to_le_bytes(x);
    out.append(&mut bs);
}

/// Appends the wire form of coordinate `x` to `out`.
pub fn write_i32(out: &mut Vec<u8>, x: i32)
    ensures
        final(out)@ == old(out)@ + spec_enc_i32(x),
{
    let biased: u64 = ((x as i64) + 0x8000_0000i64) as u64;
    write_u64(out, biased);
}

/// Reads a coordinate at `pos`, returning it with the position after it;
/// the outcome agrees exactly with the specification decoder.
pub fn read_i32(b: &[u8], pos: usize) -> (r: Option<(i32, usize)>)
    requires
        pos <= b@.len(),
    ensures
        ({
            let t = spec_dec_i32(b@.skip(pos as int));
            match r {
                Option::Some(p) => pos <= p.1 <= b@.len() && t == Option::Some((
                    p.0,
                    b@.skip(p.1 as int),
                )),
                Option::None => t is None,
            }
        }),
{
    match read_u64(b, pos) {
        Option::None => Option::None,
        Option::Some((v, p1)) => {
            if v > 0xFFFF_FFFFu64 {
                Option::None
            } else {
                let x: i32 = ((v as i64) - 0x8000_0000i64) as i32;
                Option::Some((x, p1))
            }
        },
    }
}

/// Appends the wire form of flag `b` to `out`.
pub fn write_flag(out: &mut Vec<u8>, b: bool)
    ensures
        final(out)@ == old(out)@ + spec_enc_flag(b),
{
    if b {
        out.push(1);
    } else {
        out.push(0);
    }
    proof {
        assert(out@ =~= old(out)@ + spec_enc_flag(b));
    }
}

/// Appends the wire form of string `s` to `out`.
pub fn write_str(out: &mut Vec<u8>, s: &str)
    ensures
        final(out)@ == old(out)@ + spec_enc_str(s@),
{
    let mut bs = s.as_bytes_vec();
    write_u64(out, bs.len() as u64);
    out.append(&mut bs);
    proof {
        assert(out@ =~= old(out)@ + spec_enc_str(s@));
    }
}

/// Reads an integer at `pos`, returning it with the position after it; the
/// outcome agrees exactly with the specification decoder on the remaining
/// input.
pub fn read_u64(b: &[u8], pos: usize) -> (r: Option<(u64, usize)>)
    requires
        pos <= b@.len(),
    ensures
        ({
            let t = spec_dec_u64(b@.skip(pos as int));
            match r {
                Option::Some(p) => pos <= p.1 <= b@.len() && t == Option::Some((
                    p.0,
                    b@.skip(p.1 as int),
                )),
                Option::None => t is None,
            }
        }),
{
    if b.len() - pos >= 8 {
        let sl = slice_subrange(b, pos, pos + 8);
        let x = u64_from_le_bytes(sl);
        proof {
            assert(b@.skip(pos as int).take(8) =~= b@.subrange(pos as int, pos + 8));
            assert(b@.skip(pos as int).skip(8) =~= b@.skip(pos + 8));
        }
        Option::Some((x, pos + 8))
    } else {
        Option::None
    }
}

/// Reads a flag at `pos`, returning it with the position after it; the
/// outcome agrees exactly with the specification decoder.
pub fn read_flag(b: &[u8], pos: usize) -> (r: Option<(bool, usize)>)
    requires
        pos <= b@.len(),
    ensures
        ({
            let t = spec_dec_flag(b@.skip(pos as int));
            match r {
                Option::Some(p) => pos <= p.1 <= b@.len() && t == Option::Some((
                    p.0,
                    b@.skip(p.1 as int),
                )),
                Option::None => t is None,
            }
        }),
{
    if b.len() - pos >= 1 {
        let byte = *vstd::slice::slice_index_get(b, pos);
        proof {
            assert(b@.skip(pos as int)[0] == b@[pos as int]);
            assert(b@.skip(pos as int).skip(1) =~= b@.skip(pos as int + 1));
        }
        if byte == 0 {
            Option::Some((false, pos + 1))
        } else if byte == 1 {
            Option::Some((true, pos + 1))
        } else {
            Option::None
        }
    } else {
        Option::None
    }
}

/// Relies on `String::from_utf8` of the standard library: it returns the
/// string made of the given bytes exactly when they are valid UTF-8, and
/// fails otherwise.
#[verifier::external_body]
fn string_from_utf8(v: Vec<u8>) -> (r: Option<String>)
    ensures
        r is Some <==> valid_utf8(v@),
        r matches Option::Some(s) ==> s@ == decode_utf8(v@),
{
    String::from_utf8(v).ok()
}

/// Reads a length-prefixed string at `pos`, returning it with the position
/// after it; the outcome agrees exactly with the specification decoder.
pub fn read_str(b: &[u8], pos: usize) -> (r: Option<(String, usize)>)
    requires
        pos <= b@.len(),
    ensures
        ({
            let t = spec_dec_str(b@.skip(pos as int));
            match r {
                Option::Some(p) => pos <= p.1 <= b@.len() && t == Option::Some((
                    p.0@,
                    b@.skip(p.1 as int),
                )),
                Option::None => t is None,
            }
        }),
{
    match read_u64(b, pos) {
        Option::None => Option::None,
        Option::Some((n, p2)) => {
            if n > (b.len() - p2) as u64 {
                proof {
                    assert(b@.skip(p2 as int).len() < n);
                }
                Option::None
            } else {
                let n_us: usize = n as usize;
                let sl = slice_subrange(b, p2, p2 + n_us);
                proof {
                    assert(b@.skip(p2 as int).take(n as int) =~= b@.subrange(
                        p2 as int,
                        p2 + n_us,
                    ));
                    assert(b@.skip(p2 as int).skip(n as int) =~= b@.skip(p2 + n_us));
                }
                let v = slice_to_vec(sl);
                match string_from_utf8(v) {
                    Option::None => Option::None,
                    Option::Some(s) => Option::Some((s, p2 + n_us)),
                }
            }
        },
    }
}

} // verus!
