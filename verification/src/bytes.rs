//! Length-prefixed byte encoding: the building block of the wire codec and of
//! the canonical digest. Every field is written as an 8-byte big-endian byte
//! count followed by the bytes themselves, which makes the encoding of a
//! sequence of fields injective.

use vstd::prelude::*;

verus! {

/// The 8-byte big-endian encoding of a length.
pub open spec fn be64(n: u64) -> Seq<u8> {
    seq![
        ((n >> 56) & 0xff) as u8,
        ((n >> 48) & 0xff) as u8,
        ((n >> 40) & 0xff) as u8,
        ((n >> 32) & 0xff) as u8,
        ((n >> 24) & 0xff) as u8,
        ((n >> 16) & 0xff) as u8,
        ((n >> 8) & 0xff) as u8,
        (n & 0xff) as u8,
    ]
}

/// A length-prefixed field: the byte count, then the bytes.
pub open spec fn enc_bytes(b: Seq<u8>) -> Seq<u8> {
    be64(b.len() as u64) + b
}

/// A length-prefixed string field: the UTF-8 bytes of the string, prefixed
/// with their count.
pub open spec fn enc_str(s: Seq<char>) -> Seq<u8> {
    enc_bytes(vstd::utf8::encode_utf8(s))
}

/// Whether a byte sequence is short enough for a length prefix. Every view of
/// an executable vector satisfies this.
pub open spec fn fits_len(b: Seq<u8>) -> bool {
    b.len() <= u64::MAX
}

/// The big-endian length encoding is injective.
pub proof fn lemma_be64_injective(a: u64, b: u64)
    requires
        be64(a) == be64(b),
    ensures
        a == b,
{
    assert(be64(a)[0] == be64(b)[0] && be64(a)[1] == be64(b)[1] && be64(a)[2] == be64(b)[2]
        && be64(a)[3] == be64(b)[3] && be64(a)[4] == be64(b)[4] && be64(a)[5] == be64(b)[5]
        && be64(a)[6] == be64(b)[6] && be64(a)[7] == be64(b)[7]);
    assert((((a >> 56) & 0xff) as u8 == ((b >> 56) & 0xff) as u8 && ((a >> 48) & 0xff) as u8 == ((b
        >> 48) & 0xff) as u8 && ((a >> 40) & 0xff) as u8 == ((b >> 40) & 0xff) as u8 && ((a >> 32)
        & 0xff) as u8 == ((b >> 32) & 0xff) as u8 && ((a >> 24) & 0xff) as u8 == ((b >> 24)
        & 0xff) as u8 && ((a >> 16) & 0xff) as u8 == ((b >> 16) & 0xff) as u8 && ((a >> 8)
        & 0xff) as u8 == ((b >> 8) & 0xff) as u8 && (a & 0xff) as u8 == (b & 0xff) as u8) ==> a
        == b) by (bit_vector);
}

/// Appends the 8-byte big-endian encoding of `n`.
pub fn push_u64_be(out: &mut Vec<u8>, n: u64)
    ensures
        final(out)@ == old(out)@ + be64(n),
{
    out.push(((n >> 56) & 0xff) as u8);
    out.push(((n >> 48) & 0xff) as u8);
    out.push(((n >> 40) & 0xff) as u8);
    out.push(((n >> 32) & 0xff) as u8);
    out.push(((n >> 24) & 0xff) as u8);
    out.push(((n >> 16) & 0xff) as u8);
    out.push(((n >> 8) & 0xff) as u8);
    out.push((n & 0xff) as u8);
    assert(out@ =~= old(out)@ + be64(n));
}

/// Appends the bytes of `b`.
pub fn push_bytes(out: &mut Vec<u8>, b: &Vec<u8>)
    ensures
        final(out)@ == old(out)@ + b@,
{
    let mut i: usize = 0;
    while i < b.len()
        invariant
            i <= b.len(),
            out@ == old(out)@ + b@.take(i as int),
        decreases b.len() - i,
    {
        out.push(b[i]);
        assert(out@ =~= old(out)@ + b@.take(i as int + 1));
        i = i + 1;
    }
    assert(out@ =~= old(out)@ + b@);
}

/// Appends a length-prefixed field.
pub fn push_field(out: &mut Vec<u8>, b: &Vec<u8>)
    ensures
        final(out)@ == old(out)@ + enc_bytes(b@),
{
    push_u64_be(out, b.len() as u64);
    push_bytes(out, b);
    assert(out@ =~= old(out)@ + enc_bytes(b@));
}

/// Appends a length-prefixed string field (its UTF-8 bytes).
pub fn push_str_field(out: &mut Vec<u8>, s: &String)
    ensures
        final(out)@ == old(out)@ + enc_str(s@),
{
    let bytes = vstd::string::StrSliceExecFns::as_bytes_vec(s.as_str());
    push_field(out, &bytes);
}

/// The byte length of a string's UTF-8 encoding. Returning it as a `usize`
/// also bounds it, so the string fits a length prefix.
pub fn str_byte_len(s: &String) -> (n: usize)
    ensures
        n == vstd::utf8::encode_utf8(s@).len(),
{
    let v = vstd::string::StrSliceExecFns::as_bytes_vec(s.as_str());
    v.len()
}

/// Reads an 8-byte big-endian length at `pos`.
pub fn read_u64_be(buf: &Vec<u8>, pos: usize) -> (r: Option<(u64, usize)>)
    ensures
        r matches Some((n, p)) ==> pos + 8 <= buf@.len() && p == pos + 8 && be64(n)
            == buf@.subrange(pos as int, pos as int + 8),
        r is None ==> pos + 8 > buf@.len(),
{
    if buf.len() < 8 || pos > buf.len() - 8 {
        return None;
    }
    let b0 = buf[pos];
    let b1 = buf[pos + 1];
    let b2 = buf[pos + 2];
    let b3 = buf[pos + 3];
    let b4 = buf[pos + 4];
    let b5 = buf[pos + 5];
    let b6 = buf[pos + 6];
    let b7 = buf[pos + 7];
    let n: u64 = ((b0 as u64) << 56) | ((b1 as u64) << 48) | ((b2 as u64) << 40) | ((b3 as u64)
        << 32) | ((b4 as u64) << 24) | ((b5 as u64) << 16) | ((b6 as u64) << 8) | (b7 as u64);
    proof {
        lemma_be64_recompose(b0, b1, b2, b3, b4, b5, b6, b7);
        assert(be64(n) =~= buf@.subrange(pos as int, pos as int + 8));
    }
    Some((n, pos + 8))
}

/// The value an 8-byte big-endian sequence denotes.
pub open spec fn be64_val(s: Seq<u8>) -> u64 {
    ((s[0] as u64) << 56) | ((s[1] as u64) << 48) | ((s[2] as u64) << 40) | ((s[3] as u64) << 32)
        | ((s[4] as u64) << 24) | ((s[5] as u64) << 16) | ((s[6] as u64) << 8) | (s[7] as u64)
}

/// Decoding an encoded length gives the length back.
pub proof fn lemma_be64_val_of_be64(n: u64)
    ensures
        be64_val(be64(n)) == n,
{
    assert((((((n >> 56) & 0xff) as u8) as u64) << 56) | (((((n >> 48) & 0xff) as u8) as u64)
        << 48) | (((((n >> 40) & 0xff) as u8) as u64) << 40) | (((((n >> 32) & 0xff) as u8) as u64)
        << 32) | (((((n >> 24) & 0xff) as u8) as u64) << 24) | (((((n >> 16) & 0xff) as u8) as u64)
        << 16) | (((((n >> 8) & 0xff) as u8) as u64) << 8) | (((n & 0xff) as u8) as u64) == n)
        by (bit_vector);
}

/// Encoding a decoded 8-byte sequence gives the sequence back.
pub proof fn lemma_be64_of_be64_val(s: Seq<u8>)
    requires
        s.len() == 8,
    ensures
        be64(be64_val(s)) == s,
{
    lemma_be64_recompose(s[0], s[1], s[2], s[3], s[4], s[5], s[6], s[7]);
    assert(s =~= seq![s[0], s[1], s[2], s[3], s[4], s[5], s[6], s[7]]);
}

/// Recomposing eight bytes big-endian and re-encoding gives the same bytes.
proof fn lemma_be64_recompose(b0: u8, b1: u8, b2: u8, b3: u8, b4: u8, b5: u8, b6: u8, b7: u8)
    ensures
        be64(
            ((b0 as u64) << 56) | ((b1 as u64) << 48) | ((b2 as u64) << 40) | ((b3 as u64) << 32)
                | ((b4 as u64) << 24) | ((b5 as u64) << 16) | ((b6 as u64) << 8) | (b7 as u64),
        ) == seq![b0, b1, b2, b3, b4, b5, b6, b7],
{
    let n: u64 = ((b0 as u64) << 56) | ((b1 as u64) << 48) | ((b2 as u64) << 40) | ((b3 as u64)
        << 32) | ((b4 as u64) << 24) | ((b5 as u64) << 16) | ((b6 as u64) << 8) | (b7 as u64);
    assert(((n >> 56) & 0xff) as u8 == b0 && ((n >> 48) & 0xff) as u8 == b1 && ((n >> 40)
        & 0xff) as u8 == b2 && ((n >> 32) & 0xff) as u8 == b3 && ((n >> 24) & 0xff) as u8 == b4 && (
    (n >> 16) & 0xff) as u8 == b5 && ((n >> 8) & 0xff) as u8 == b6 && (n & 0xff) as u8 == b7)
        by (bit_vector)
        requires
            n == ((b0 as u64) << 56) | ((b1 as u64) << 48) | ((b2 as u64) << 40) | ((b3 as u64)
                << 32) | ((b4 as u64) << 24) | ((b5 as u64) << 16) | ((b6 as u64) << 8) | (
            b7 as u64),
    ;
    assert(be64(n) =~= seq![b0, b1, b2, b3, b4, b5, b6, b7]);
}

/// Reads a length-prefixed field at `pos`: the parsed bytes and the position
/// after them. Fails exactly when no field encoding starts at `pos`.
pub fn read_field(buf: &Vec<u8>, pos: usize) -> (r: Option<(Vec<u8>, usize)>)
    ensures
        r matches Some((b, p)) ==> pos + 8 + b@.len() == p && p <= buf@.len() && buf@.subrange(
            pos as int,
            p as int,
        ) == enc_bytes(b@),
        r is None ==> forall|b: Seq<u8>|
            fits_len(b) ==> !(pos + 8 + b.len() <= buf@.len() && buf@.subrange(
                pos as int,
                pos as int + 8 + b.len(),
            ) == #[trigger] enc_bytes(b)),
{
    let parsed = read_u64_be(buf, pos);
    match parsed {
        None => {
            assert forall|b: Seq<u8>|
                fits_len(b) && pos + 8 + b.len() <= buf@.len() implies !(buf@.subrange(
                pos as int,
                pos as int + 8 + b.len(),
            ) == enc_bytes(b)) by {
                assert(pos + 8 > buf@.len());
            }
            None
        },
        Some((n, body)) => {
            if n > (buf.len() - body) as u64 {
                proof {
                    assert forall|b: Seq<u8>|
                        fits_len(b) && pos + 8 + b.len() <= buf@.len() implies !(buf@.subrange(
                        pos as int,
                        pos as int + 8 + b.len(),
                    ) == enc_bytes(b)) by {
                        if buf@.subrange(pos as int, pos as int + 8 + b.len()) == enc_bytes(b) {
                            assert(be64(b.len() as u64) =~= buf@.subrange(
                                pos as int,
                                pos as int + 8,
                            ));
                            lemma_be64_injective(b.len() as u64, n);
                        }
                    }
                }
                return None;
            }
            let len = n as usize;
            let piece = vstd::slice::slice_to_vec(
                vstd::slice::slice_subrange(buf.as_slice(), body, body + len),
            );
            proof {
                assert(be64(piece@.len() as u64) =~= buf@.subrange(pos as int, pos as int + 8));
                assert(buf@.subrange(pos as int, pos as int + 8 + piece@.len()) =~= enc_bytes(
                    piece@,
                ));
            }
            Some((piece, body + len))
        },
    }
}

} // verus!
