//! Canonical byte encoding primitives.
//!
//! Every structure on the consensus path is hashed and shipped in an explicit
//! field-by-field byte layout, independent of any language's in-memory
//! representation: `u64` values as eight big-endian bytes, variable-length
//! byte fields as a `u64` length prefix followed by the raw bytes.
//!
//! For each primitive there is a spec-level encoder, a spec-level parser in
//! "value plus rest" style, exec functions proved against them, and a lemma
//! that parsing undoes encoding with an arbitrary tail.

use vstd::prelude::*;

verus! {

/// The eight big-endian bytes of a `u64`.
pub open spec fn u64_be(x: u64) -> Seq<u8> {
    seq![
        (x >> 56) as u8,
        (x >> 48) as u8,
        (x >> 40) as u8,
        (x >> 32) as u8,
        (x >> 24) as u8,
        (x >> 16) as u8,
        (x >> 8) as u8,
        x as u8,
    ]
}

/// Recombines eight big-endian bytes into a `u64`.
pub open spec fn u64_from_be8(b0: u8, b1: u8, b2: u8, b3: u8, b4: u8, b5: u8, b6: u8, b7: u8) -> u64 {
    ((b0 as u64) << 56) | ((b1 as u64) << 48) | ((b2 as u64) << 40) | ((b3 as u64) << 32)
        | ((b4 as u64) << 24) | ((b5 as u64) << 16) | ((b6 as u64) << 8) | (b7 as u64)
}

/// A length-prefixed byte field: the length as eight big-endian bytes, then
/// the bytes themselves.
pub open spec fn enc_bytes(b: Seq<u8>) -> Seq<u8> {
    u64_be(b.len() as u64) + b
}

/// Parses a `u64` off the front of a byte stream.
#[verifier::opaque]
pub open spec fn parse_u64(s: Seq<u8>) -> Option<(u64, Seq<u8>)> {
    if s.len() >= 8 {
        Some((u64_from_be8(s[0], s[1], s[2], s[3], s[4], s[5], s[6], s[7]), s.skip(8)))
    } else {
        None
    }
}

/// Parses a length-prefixed byte field off the front of a byte stream.
#[verifier::opaque]
pub open spec fn parse_bytes(s: Seq<u8>) -> Option<(Seq<u8>, Seq<u8>)> {
    match parse_u64(s) {
        Some((n, r)) => if r.len() >= n as int {
            Some((r.take(n as int), r.skip(n as int)))
        } else {
            None
        },
        None => None,
    }
}

/// Every byte of the big-endian encoding is already in range: the shifted
/// values fit in eight bits.
proof fn lemma_u64_be_byte_bounds(x: u64)
    ensures
        x >> 56 <= 0xff,
{
    assert(x >> 56 <= 0xff) by (bit_vector);
}

/// Recombining the eight big-endian bytes of `x` yields `x` again.
pub proof fn lemma_u64_be_roundtrip(x: u64)
    ensures
        u64_from_be8(
            (x >> 56) as u8,
            (x >> 48) as u8,
            (x >> 40) as u8,
            (x >> 32) as u8,
            (x >> 24) as u8,
            (x >> 16) as u8,
            (x >> 8) as u8,
            x as u8,
        ) == x,
{
    assert((((x >> 56) as u8 as u64) << 56) | (((x >> 48) as u8 as u64) << 48)
        | (((x >> 40) as u8 as u64) << 40) | (((x >> 32) as u8 as u64) << 32)
        | (((x >> 24) as u8 as u64) << 24) | (((x >> 16) as u8 as u64) << 16)
        | (((x >> 8) as u8 as u64) << 8) | ((x as u8) as u64) == x) by (bit_vector);
}

/// Concatenation of byte sequences is associative.
pub proof fn lemma_concat_assoc(a: Seq<u8>, b: Seq<u8>, c: Seq<u8>)
    ensures
        (a + b) + c == a + (b + c),
{
    assert((a + b) + c =~= a + (b + c));
}

/// Parsing a `u64` undoes encoding one, whatever follows.
pub proof fn lemma_parse_u64_enc(x: u64, rest: Seq<u8>)
    ensures
        parse_u64(u64_be(x) + rest) == Some((x, rest)),
{
    reveal(parse_u64);
    let s = u64_be(x) + rest;
    lemma_u64_be_roundtrip(x);
    assert(s.skip(8) =~= rest);
    assert(parse_u64(s) == Some((x, rest)));
}

/// Parsing a byte field undoes encoding one, whatever follows.
pub proof fn lemma_parse_bytes_enc(b: Seq<u8>, rest: Seq<u8>)
    requires
        b.len() <= u64::MAX,
    ensures
        parse_bytes(enc_bytes(b) + rest) == Some((b, rest)),
{
    reveal(parse_bytes);
    let n = b.len() as u64;
    assert(enc_bytes(b) + rest =~= u64_be(n) + (b + rest));
    lemma_parse_u64_enc(n, b + rest);
    assert((b + rest).take(n as int) =~= b);
    assert((b + rest).skip(n as int) =~= rest);
}

/// Appends the eight big-endian bytes of `x`.
pub fn push_u64_be(out: &mut Vec<u8>, x: u64)
    ensures
        final(out)@ == old(out)@ + u64_be(x),
{
    proof {
        lemma_u64_be_byte_bounds(x >> 0);
        lemma_u64_be_byte_bounds(x >> 8);
        lemma_u64_be_byte_bounds(x >> 16);
        lemma_u64_be_byte_bounds(x >> 24);
        lemma_u64_be_byte_bounds(x >> 32);
        lemma_u64_be_byte_bounds(x >> 40);
        lemma_u64_be_byte_bounds(x >> 48);
    }
    out.push((x >> 56) as u8);
    out.push((x >> 48) as u8);
    out.push((x >> 40) as u8);
    out.push((x >> 32) as u8);
    out.push((x >> 24) as u8);
    out.push((x >> 16) as u8);
    out.push((x >> 8) as u8);
    out.push(x as u8);
    assert(final(out)@ =~= old(out)@ + u64_be(x));
}

/// Appends a length-prefixed byte field.
pub fn push_bytes_field(out: &mut Vec<u8>, b: &Vec<u8>)
    ensures
        final(out)@ == old(out)@ + enc_bytes(b@),
{
    push_u64_be(out, b.len() as u64);
    let mut i: usize = 0;
    while i < b.len()
        invariant
            i <= b@.len(),
            out@ == old(out)@ + u64_be(b@.len() as u64) + b@.take(i as int),
        decreases b@.len() - i,
    {
        out.push(b[i]);
        i = i + 1;
        assert(out@ =~= old(out)@ + u64_be(b@.len() as u64) + b@.take(i as int));
    }
    assert(out@ =~= old(out)@ + enc_bytes(b@));
}

/// Reads a `u64` at `pos`, returning the value and the next position.
pub fn read_u64_be(s: &[u8], pos: usize) -> (r: Option<(u64, usize)>)
    requires
        pos <= s@.len(),
    ensures
        match r {
            Some(xp) => {
                &&& parse_u64(s@.skip(pos as int)) == Some((xp.0, s@.skip(xp.1 as int)))
                &&& pos < xp.1 <= s@.len()
            },
            None => parse_u64(s@.skip(pos as int)) is None,
        },
{
    proof {
        reveal(parse_u64);
    }
    if s.len() - pos >= 8 {
        let x: u64 = ((s[pos] as u64) << 56) | ((s[pos + 1] as u64) << 48)
            | ((s[pos + 2] as u64) << 40) | ((s[pos + 3] as u64) << 32)
            | ((s[pos + 4] as u64) << 24) | ((s[pos + 5] as u64) << 16)
            | ((s[pos + 6] as u64) << 8) | (s[pos + 7] as u64);
        let p2 = pos + 8;
        proof {
            let t = s@.skip(pos as int);
            assert(t.len() >= 8);
            assert(t[0] == s@[pos as int]);
            assert(t.skip(8) =~= s@.skip(p2 as int));
        }
        Some((x, p2))
    } else {
        proof {
            assert(s@.skip(pos as int).len() < 8);
        }
        None
    }
}

/// Reads a length-prefixed byte field at `pos`, returning the bytes and the
/// next position.
pub fn read_bytes_field(s: &[u8], pos: usize) -> (r: Option<(Vec<u8>, usize)>)
    requires
        pos <= s@.len(),
    ensures
        match r {
            Some(vp) => {
                &&& parse_bytes(s@.skip(pos as int)) == Some((vp.0@, s@.skip(vp.1 as int)))
                &&& pos < vp.1 <= s@.len()
            },
            None => parse_bytes(s@.skip(pos as int)) is None,
        },
{
    proof {
        reveal(parse_bytes);
    }
    match read_u64_be(s, pos) {
        None => None,
        Some((n, p2)) => {
            let avail: usize = s.len() - p2;
            if n > avail as u64 {
                proof {
                    let t = s@.skip(pos as int);
                    assert(s@.skip(p2 as int).len() < n as int);
                }
                None
            } else {
                let ln: usize = n as usize;
                let total: usize = s.len();
                let mut v: Vec<u8> = Vec::new();
                let mut i: usize = 0;
                while i < ln
                    invariant
                        i <= ln,
                        p2 + ln <= total,
                        total == s@.len(),
                        v@ == s@.subrange(p2 as int, p2 as int + i as int),
                    decreases ln - i,
                {
                    v.push(s[p2 + i]);
                    i = i + 1;
                    assert(v@ =~= s@.subrange(p2 as int, p2 as int + i as int));
                }
                let p3 = p2 + ln;
                proof {
                    let r2 = s@.skip(p2 as int);
                    assert(r2.take(n as int) =~= s@.subrange(p2 as int, p2 as int + n as int));
                    assert(r2.skip(n as int) =~= s@.skip(p3 as int));
                }
                Some((v, p3))
            }
        },
    }
}

} // verus!
