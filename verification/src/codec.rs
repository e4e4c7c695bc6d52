//! The envelope codec: the canonical digest that the sender signs, and the
//! fixed wire layout of a sealed message and of public identities.
//!
//! All fields are length-prefixed (see `bytes`), in a fixed order, so the
//! encoding of an envelope — and in particular the digest, which covers every
//! field that determines plaintext recovery — is injective.

use vstd::prelude::*;

use crate::bytes::{
    be64, be64_val, enc_bytes, enc_str, fits_len, lemma_be64_of_be64_val, lemma_be64_val_of_be64,
    push_field, push_str_field, push_u64_be, read_field, read_u64_be,
};
use crate::errors::EnvelopeError;
use crate::primitives::{string_from_utf8, NONCE_LEN, TAG_LEN};
use crate::types::{env_wf, Envelope, RecipientEntry, RecipientIdentity, SenderIdentity};

verus! {

/// The encoding of one recipient entry: its identifier, then its
/// encapsulated key.
pub open spec fn enc_entry(e: RecipientEntry) -> Seq<u8> {
    enc_str(e.recipient_id@) + enc_bytes(e.encapsulated_key@)
}

/// The concatenated encodings of a list of recipient entries.
pub open spec fn enc_entries(s: Seq<RecipientEntry>) -> Seq<u8>
    decreases s.len(),
{
    if s.len() == 0 {
        Seq::empty()
    } else {
        enc_entries(s.drop_last()) + enc_entry(s.last())
    }
}

/// The concatenated identifier encodings of a list of recipient entries:
/// what the digest covers of the recipient list.
pub open spec fn enc_entry_ids(s: Seq<RecipientEntry>) -> Seq<u8>
    decreases s.len(),
{
    if s.len() == 0 {
        Seq::empty()
    } else {
        enc_entry_ids(s.drop_last()) + enc_str(s.last().recipient_id@)
    }
}

/// The canonical digest: the deterministic byte sequence over the sender
/// identifier, the ordered recipient identifiers, the nonce, the ciphertext
/// and the tag. The sender's signature is computed and verified over exactly
/// these bytes.
pub open spec fn digest_spec(env: &Envelope) -> Seq<u8> {
    enc_str(env.sender_id@) + be64(env.recipients@.len() as u64) + enc_entry_ids(env.recipients@)
        + enc_bytes(env.nonce@) + enc_bytes(env.ciphertext@) + enc_bytes(env.tag@)
}

/// The wire encoding of an envelope: the digest fields in the same order,
/// with each recipient entry carrying its encapsulated key, and the signature
/// last.
pub open spec fn encode_spec(env: &Envelope) -> Seq<u8> {
    enc_str(env.sender_id@) + be64(env.recipients@.len() as u64) + enc_entries(env.recipients@)
        + enc_bytes(env.nonce@) + enc_bytes(env.ciphertext@) + enc_bytes(env.tag@) + enc_bytes(
        env.signature@,
    )
}

/// Computes the canonical digest of an envelope's authenticated fields. The
/// signature field plays no part.
pub fn digest_bytes(env: &Envelope) -> (r: Vec<u8>)
    ensures
        r@ == digest_spec(env),
{
    let mut out: Vec<u8> = Vec::new();
    push_str_field(&mut out, &env.sender_id);
    push_u64_be(&mut out, env.recipients.len() as u64);
    let ghost head = enc_str(env.sender_id@) + be64(env.recipients@.len() as u64);
    let mut i: usize = 0;
    while i < env.recipients.len()
        invariant
            i <= env.recipients@.len(),
            head == enc_str(env.sender_id@) + be64(env.recipients@.len() as u64),
            out@ == head + enc_entry_ids(env.recipients@.take(i as int)),
        decreases env.recipients@.len() - i,
    {
        push_str_field(&mut out, &env.recipients[i].recipient_id);
        proof {
            let t = env.recipients@.take(i as int + 1);
            assert(t.drop_last() =~= env.recipients@.take(i as int));
            assert(t.last() == env.recipients@[i as int]);
            assert(out@ =~= head + enc_entry_ids(t));
        }
        i = i + 1;
    }
    proof {
        assert(env.recipients@.take(env.recipients@.len() as int) =~= env.recipients@);
    }
    push_field(&mut out, &env.nonce);
    push_field(&mut out, &env.ciphertext);
    push_field(&mut out, &env.tag);
    proof {
        assert(out@ =~= digest_spec(env));
    }
    out
}

/// Serializes an envelope to its wire encoding.
pub fn encode_envelope(env: &Envelope) -> (r: Vec<u8>)
    ensures
        r@ == encode_spec(env),
{
    let mut out: Vec<u8> = Vec::new();
    push_str_field(&mut out, &env.sender_id);
    push_u64_be(&mut out, env.recipients.len() as u64);
    let ghost head = enc_str(env.sender_id@) + be64(env.recipients@.len() as u64);
    let mut i: usize = 0;
    while i < env.recipients.len()
        invariant
            i <= env.recipients@.len(),
            head == enc_str(env.sender_id@) + be64(env.recipients@.len() as u64),
            out@ == head + enc_entries(env.recipients@.take(i as int)),
        decreases env.recipients@.len() - i,
    {
        push_str_field(&mut out, &env.recipients[i].recipient_id);
        push_field(&mut out, &env.recipients[i].encapsulated_key);
        proof {
            let t = env.recipients@.take(i as int + 1);
            assert(t.drop_last() =~= env.recipients@.take(i as int));
            assert(t.last() == env.recipients@[i as int]);
            assert(out@ =~= head + enc_entries(t));
        }
        i = i + 1;
    }
    proof {
        assert(env.recipients@.take(env.recipients@.len() as int) =~= env.recipients@);
    }
    push_field(&mut out, &env.nonce);
    push_field(&mut out, &env.ciphertext);
    push_field(&mut out, &env.tag);
    push_field(&mut out, &env.signature);
    proof {
        assert(out@ =~= encode_spec(env));
    }
    out
}

/// The ghost image of an envelope: what the wire parser recovers.
pub ghost struct EnvelopeModel {
    pub sender_id: Seq<char>,
    pub recipients: Seq<(Seq<char>, Seq<u8>)>,
    pub nonce: Seq<u8>,
    pub ciphertext: Seq<u8>,
    pub tag: Seq<u8>,
    pub signature: Seq<u8>,
}

/// The recipient entries of an envelope as ghost pairs.
pub open spec fn entries_model(s: Seq<RecipientEntry>) -> Seq<(Seq<char>, Seq<u8>)> {
    s.map(|j: int, e: RecipientEntry| (e.recipient_id@, e.encapsulated_key@))
}

/// The ghost image of an envelope value.
pub open spec fn env_model(env: &Envelope) -> EnvelopeModel {
    EnvelopeModel {
        sender_id: env.sender_id@,
        recipients: entries_model(env.recipients@),
        nonce: env.nonce@,
        ciphertext: env.ciphertext@,
        tag: env.tag@,
        signature: env.signature@,
    }
}

/// Parses one length-prefixed field at `pos`.
pub open spec fn parse_field(buf: Seq<u8>, pos: int) -> Option<(Seq<u8>, int)> {
    if 0 <= pos && pos + 8 <= buf.len() {
        let n = be64_val(buf.subrange(pos, pos + 8)) as int;
        if pos + 8 + n <= buf.len() {
            Some((buf.subrange(pos + 8, pos + 8 + n), pos + 8 + n))
        } else {
            None
        }
    } else {
        None
    }
}

/// Parses one length-prefixed string field at `pos`: the bytes must be valid
/// UTF-8.
pub open spec fn parse_str(buf: Seq<u8>, pos: int) -> Option<(Seq<char>, int)> {
    match parse_field(buf, pos) {
        None => None,
        Some((b, p)) => if vstd::utf8::valid_utf8(b) {
            Some((vstd::utf8::decode_utf8(b), p))
        } else {
            None
        },
    }
}

/// Parses `n` recipient entries starting at `pos`.
pub open spec fn parse_entries(buf: Seq<u8>, pos: int, n: nat) -> Option<
    (Seq<(Seq<char>, Seq<u8>)>, int),
>
    decreases n,
{
    if n == 0 {
        Some((Seq::empty(), pos))
    } else {
        match parse_str(buf, pos) {
            None => None,
            Some((id, p1)) => match parse_field(buf, p1) {
                None => None,
                Some((ek, p2)) => match parse_entries(buf, p2, (n - 1) as nat) {
                    None => None,
                    Some((rest, p3)) => Some((seq![(id, ek)] + rest, p3)),
                },
            },
        }
    }
}

/// Parses a whole wire envelope: the fields of `encode_spec` in order, with
/// nothing left over, the nonce and tag at their primitive lengths.
pub open spec fn parse_envelope(buf: Seq<u8>) -> Option<EnvelopeModel> {
    match parse_str(buf, 0) {
        None => None,
        Some((sid, p1)) => if p1 + 8 <= buf.len() {
            let cnt = be64_val(buf.subrange(p1, p1 + 8));
            match parse_entries(buf, p1 + 8, cnt as nat) {
                None => None,
                Some((ents, p2)) => match parse_field(buf, p2) {
                    None => None,
                    Some((nonce, p3)) => match parse_field(buf, p3) {
                        None => None,
                        Some((ct, p4)) => match parse_field(buf, p4) {
                            None => None,
                            Some((tag, p5)) => match parse_field(buf, p5) {
                                None => None,
                                Some((sig, p6)) => if p6 == buf.len() && nonce.len() == NONCE_LEN
                                    && tag.len() == TAG_LEN {
                                    Some(
                                        EnvelopeModel {
                                            sender_id: sid,
                                            recipients: ents,
                                            nonce,
                                            ciphertext: ct,
                                            tag,
                                            signature: sig,
                                        },
                                    )
                                } else {
                                    None
                                },
                            },
                        },
                    },
                },
            }
        } else {
            None
        },
    }
}

/// Reads one length-prefixed field, tied to the spec parser.
fn read_field_spec(buf: &Vec<u8>, pos: usize) -> (r: Option<(Vec<u8>, usize)>)
    ensures
        r matches Some((b, p)) ==> parse_field(buf@, pos as int) == Some((b@, p as int)) && p
            <= buf@.len() && pos <= p && fits_len(b@),
        r is None ==> parse_field(buf@, pos as int) is None,
{
    let r = read_field(buf, pos);
    proof {
        if r is Some {
            let bv = r->Some_0.0@;
            let p = r->Some_0.1 as int;
            assert(p == pos + 8 + bv.len());
            assert(buf@.subrange(pos as int, p) == enc_bytes(bv));
            assert(buf@.subrange(pos as int, pos as int + 8) =~= be64(bv.len() as u64));
            lemma_be64_val_of_be64(bv.len() as u64);
            assert forall|k: int| 0 <= k < bv.len() implies buf@.subrange(
                pos as int + 8,
                pos as int + 8 + bv.len() as int,
            )[k] == bv[k] by {
                assert(enc_bytes(bv)[8 + k] == bv[k]);
                assert(buf@.subrange(pos as int, p)[8 + k] == buf@[pos + 8 + k]);
            }
            assert(buf@.subrange(pos as int + 8, pos as int + 8 + bv.len() as int) =~= bv);
        } else {
            let pf = parse_field(buf@, pos as int);
            if pf is Some {
                let b = pf->Some_0.0;
                lemma_be64_of_be64_val(buf@.subrange(pos as int, pos as int + 8));
                assert(buf@.subrange(pos as int, pos as int + 8 + b.len()) =~= enc_bytes(b));
            }
        }
    }
    r
}

/// Reads one length-prefixed string field, tied to the spec parser.
fn read_str_spec(buf: &Vec<u8>, pos: usize) -> (r: Option<(String, usize)>)
    ensures
        r matches Some((s, p)) ==> parse_str(buf@, pos as int) == Some((s@, p as int)) && p
            <= buf@.len() && pos <= p && fits_len(vstd::utf8::encode_utf8(s@)),
        r is None ==> parse_str(buf@, pos as int) is None,
{
    match read_field_spec(buf, pos) {
        None => None,
        Some((b, p)) => {
            let ghost bv = b@;
            match string_from_utf8(b) {
                None => {
                    proof {
                        if vstd::utf8::valid_utf8(bv) {
                            assert(false);
                        }
                    }
                    None
                },
                Some(s) => {
                    proof {
                        vstd::utf8::encode_utf8_valid_utf8(s@);
                        vstd::utf8::encode_utf8_decode_utf8(s@);
                    }
                    Some((s, p))
                },
            }
        },
    }
}

/// Deserializes a wire envelope. Returns exactly what the spec parser
/// prescribes: the envelope whose image the parser recovers, or
/// `SerializationFailed` when the bytes parse as no envelope.
pub fn decode_envelope(buf: &Vec<u8>) -> (r: Result<Envelope, EnvelopeError>)
    ensures
        r matches Ok(env) ==> parse_envelope(buf@) == Some(env_model(&env)) && env_wf(&env),
        r matches Err(e) ==> e == EnvelopeError::SerializationFailed && parse_envelope(buf@)
            is None,
{
    let (sender_id, p1) = match read_str_spec(buf, 0) {
        Some(x) => x,
        None => {
            return Err(EnvelopeError::SerializationFailed);
        },
    };
    let (count, pe) = match read_u64_be(buf, p1) {
        Some(x) => x,
        None => {
            return Err(EnvelopeError::SerializationFailed);
        },
    };
    proof {
        lemma_be64_val_of_be64(count);
        assert(buf@.subrange(p1 as int, p1 as int + 8) == be64(count));
    }
    let mut entries: Vec<RecipientEntry> = Vec::new();
    let mut pos = pe;
    let mut i: u64 = 0;
    proof {
        let pr = parse_entries(buf@, pe as int, count as nat);
        if pr is Some {
            assert(entries_model(entries@) + pr->Some_0.0 =~= pr->Some_0.0);
        }
    }
    while i < count
        invariant
            i <= count,
            pos <= buf@.len(),
            entries@.len() == i,
            parse_str(buf@, 0) == Some((sender_id@, p1 as int)),
            p1 + 8 == pe,
            pe <= buf@.len(),
            be64_val(buf@.subrange(p1 as int, p1 as int + 8)) == count,
            fits_len(vstd::utf8::encode_utf8(sender_id@)),
            forall|j: int|
                0 <= j < i ==> fits_len(
                    vstd::utf8::encode_utf8(#[trigger] entries@[j].recipient_id@),
                ) && fits_len(entries@[j].encapsulated_key@),
            ({
                let pr = parse_entries(buf@, pos as int, (count - i) as nat);
                if pr is Some {
                    parse_entries(buf@, pe as int, count as nat) == Some(
                        ((entries_model(entries@) + pr->Some_0.0), pr->Some_0.1),
                    )
                } else {
                    parse_entries(buf@, pe as int, count as nat) is None
                }
            }),
        decreases count - i,
    {
        let ghost n_left = (count - i) as nat;
        let rs = read_str_spec(buf, pos);
        if rs.is_none() {
            proof {
                assert(parse_entries(buf@, pos as int, n_left) is None);
            }
            return Err(EnvelopeError::SerializationFailed);
        }
        let (rid, q1) = rs.unwrap();
        let rf = read_field_spec(buf, q1);
        if rf.is_none() {
            proof {
                assert(parse_entries(buf@, pos as int, n_left) is None);
            }
            return Err(EnvelopeError::SerializationFailed);
        }
        let (ek, q2) = rf.unwrap();
        let ghost old_model = entries_model(entries@);
        entries.push(RecipientEntry { recipient_id: rid, encapsulated_key: ek });
        proof {
            assert(entries_model(entries@) =~= old_model + seq![(rid@, ek@)]);
            let pr_new = parse_entries(buf@, q2 as int, (n_left - 1) as nat);
            if pr_new is Some {
                let rest = pr_new->Some_0.0;
                assert(parse_entries(buf@, pos as int, n_left) == Some(
                    ((seq![(rid@, ek@)] + rest), pr_new->Some_0.1),
                ));
                assert(old_model + (seq![(rid@, ek@)] + rest) =~= (old_model + seq![(rid@, ek@)])
                    + rest);
            } else {
                assert(parse_entries(buf@, pos as int, n_left) is None);
            }
        }
        pos = q2;
        i = i + 1;
    }
    proof {
        assert(parse_entries(buf@, pos as int, 0) == Some(
            (Seq::<(Seq<char>, Seq<u8>)>::empty(), pos as int),
        ));
        assert(entries_model(entries@) + Seq::<(Seq<char>, Seq<u8>)>::empty() =~= entries_model(
            entries@,
        ));
        assert(parse_entries(buf@, pe as int, count as nat) == Some(
            (entries_model(entries@), pos as int),
        ));
    }
    let (nonce, p3) = match read_field_spec(buf, pos) {
        Some(x) => x,
        None => {
            return Err(EnvelopeError::SerializationFailed);
        },
    };
    let (ciphertext, p4) = match read_field_spec(buf, p3) {
        Some(x) => x,
        None => {
            return Err(EnvelopeError::SerializationFailed);
        },
    };
    let (tag, p5) = match read_field_spec(buf, p4) {
        Some(x) => x,
        None => {
            return Err(EnvelopeError::SerializationFailed);
        },
    };
    let (signature, p6) = match read_field_spec(buf, p5) {
        Some(x) => x,
        None => {
            return Err(EnvelopeError::SerializationFailed);
        },
    };
    if p6 != buf.len() || nonce.len() != NONCE_LEN || tag.len() != TAG_LEN {
        return Err(EnvelopeError::SerializationFailed);
    }
    let env = Envelope { sender_id, recipients: entries, nonce, ciphertext, tag, signature };
    proof {
        assert(parse_envelope(buf@) == Some(env_model(&env)));
    }
    Ok(env)
}

/// A field encoding laid down in a buffer parses back to the field.
proof fn lemma_parse_field_at(buf: Seq<u8>, pos: int, b: Seq<u8>)
    requires
        0 <= pos,
        fits_len(b),
        pos + 8 + b.len() <= buf.len(),
        buf.subrange(pos, pos + 8 + b.len()) == enc_bytes(b),
    ensures
        parse_field(buf, pos) == Some((b, pos + 8 + b.len())),
{
    assert forall|k: int| 0 <= k < 8 implies #[trigger] buf.subrange(pos, pos + 8)[k] == be64(
        b.len() as u64,
    )[k] by {
        assert(buf.subrange(pos, pos + 8 + b.len())[k] == enc_bytes(b)[k]);
        assert(buf.subrange(pos, pos + 8)[k] == buf[pos + k]);
        assert(buf.subrange(pos, pos + 8 + b.len())[k] == buf[pos + k]);
    }
    assert(buf.subrange(pos, pos + 8) =~= be64(b.len() as u64));
    lemma_be64_val_of_be64(b.len() as u64);
    assert forall|k: int| 0 <= k < b.len() implies buf.subrange(pos + 8, pos + 8 + b.len())[k]
        == b[k] by {
        assert(buf.subrange(pos, pos + 8 + b.len())[8 + k] == enc_bytes(b)[8 + k]);
        assert(enc_bytes(b)[8 + k] == b[k]);
        assert(buf.subrange(pos + 8, pos + 8 + b.len())[k] == buf[pos + 8 + k]);
        assert(buf.subrange(pos, pos + 8 + b.len())[8 + k] == buf[pos + 8 + k]);
    }
    assert(buf.subrange(pos + 8, pos + 8 + b.len()) =~= b);
}

/// A string-field encoding laid down in a buffer parses back to the string.
proof fn lemma_parse_str_at(buf: Seq<u8>, pos: int, s: Seq<char>)
    requires
        0 <= pos,
        fits_len(vstd::utf8::encode_utf8(s)),
        pos + enc_str(s).len() <= buf.len(),
        buf.subrange(pos, pos + enc_str(s).len()) == enc_str(s),
    ensures
        parse_str(buf, pos) == Some((s, pos + enc_str(s).len())),
{
    let b = vstd::utf8::encode_utf8(s);
    lemma_parse_field_at(buf, pos, b);
    vstd::utf8::encode_utf8_valid_utf8(s);
    vstd::utf8::encode_utf8_decode_utf8(s);
}

/// The entry-list encoding can also be unfolded at its head.
proof fn lemma_enc_entries_first(s: Seq<RecipientEntry>)
    requires
        s.len() > 0,
    ensures
        enc_entries(s) == enc_entry(s[0]) + enc_entries(s.drop_first()),
    decreases s.len(),
{
    if s.len() == 1 {
        assert(s.drop_last() =~= Seq::<RecipientEntry>::empty());
        assert(s.drop_first() =~= Seq::<RecipientEntry>::empty());
        assert(enc_entries(s) =~= enc_entry(s[0]) + enc_entries(s.drop_first()));
    } else {
        lemma_enc_entries_first(s.drop_last());
        assert(s.drop_last()[0] == s[0]);
        assert(s.drop_last().drop_first() =~= s.drop_first().drop_last());
        assert(s.drop_first().last() == s.last());
        assert(enc_entries(s) =~= enc_entry(s[0]) + enc_entries(s.drop_first()));
    }
}

/// An entry-list encoding laid down in a buffer parses back to the entries.
proof fn lemma_parse_entries_at(buf: Seq<u8>, pos: int, s: Seq<RecipientEntry>)
    requires
        0 <= pos,
        pos + enc_entries(s).len() <= buf.len(),
        buf.subrange(pos, pos + enc_entries(s).len()) == enc_entries(s),
        forall|i: int|
            0 <= i < s.len() ==> fits_len(
                vstd::utf8::encode_utf8(#[trigger] s[i].recipient_id@),
            ) && fits_len(s[i].encapsulated_key@),
    ensures
        parse_entries(buf, pos, s.len() as nat) == Some(
            (entries_model(s), pos + enc_entries(s).len()),
        ),
    decreases s.len(),
{
    if s.len() == 0 {
        assert(entries_model(s) =~= Seq::<(Seq<char>, Seq<u8>)>::empty());
    } else {
        lemma_enc_entries_first(s);
        let id = s[0].recipient_id@;
        let ek = s[0].encapsulated_key@;
        let l1 = enc_str(id).len() as int;
        let l2 = enc_bytes(ek).len() as int;
        let tail = s.drop_first();
        let whole = enc_entries(s).len() as int;
        assert(enc_entry(s[0]) == enc_str(id) + enc_bytes(ek));
        assert forall|k: int| 0 <= k < l1 implies buf.subrange(pos, pos + l1)[k] == enc_str(
            id,
        )[k] by {
            assert(buf.subrange(pos, pos + whole)[k] == enc_entries(s)[k]);
            assert(enc_entries(s)[k] == (enc_entry(s[0]) + enc_entries(tail))[k]);
            assert(enc_entry(s[0])[k] == (enc_str(id) + enc_bytes(ek))[k]);
        }
        assert(buf.subrange(pos, pos + l1) =~= enc_str(id));
        lemma_parse_str_at(buf, pos, id);
        let p1 = pos + l1;
        assert forall|k: int| 0 <= k < l2 implies buf.subrange(p1, p1 + l2)[k] == enc_bytes(
            ek,
        )[k] by {
            assert(buf.subrange(pos, pos + whole)[l1 + k] == enc_entries(s)[l1 + k]);
            assert(enc_entries(s)[l1 + k] == (enc_entry(s[0]) + enc_entries(tail))[l1 + k]);
            assert(enc_entry(s[0])[l1 + k] == (enc_str(id) + enc_bytes(ek))[l1 + k]);
        }
        assert(buf.subrange(p1, p1 + l2) =~= enc_bytes(ek));
        lemma_parse_field_at(buf, p1, ek);
        let p2 = p1 + l2;
        let tl = enc_entries(tail).len() as int;
        assert forall|k: int| 0 <= k < tl implies buf.subrange(p2, p2 + tl)[k] == enc_entries(
            tail,
        )[k] by {
            assert(buf.subrange(pos, pos + whole)[l1 + l2 + k] == enc_entries(s)[l1 + l2 + k]);
            assert(enc_entries(s)[l1 + l2 + k] == (enc_entry(s[0]) + enc_entries(tail))[l1 + l2
                + k]);
        }
        assert(buf.subrange(p2, p2 + tl) =~= enc_entries(tail));
        assert forall|i: int|
            0 <= i < tail.len() implies fits_len(
            vstd::utf8::encode_utf8(#[trigger] tail[i].recipient_id@),
        ) && fits_len(tail[i].encapsulated_key@) by {
            assert(tail[i] == s[i + 1]);
            assert(fits_len(vstd::utf8::encode_utf8(s[i + 1].recipient_id@)));
            assert(fits_len(s[i + 1].encapsulated_key@));
        }
        lemma_parse_entries_at(buf, p2, tail);
        assert(entries_model(s) =~= seq![(id, ek)] + entries_model(tail));
        assert(parse_entries(buf, pos, s.len() as nat) == Some(
            (seq![(id, ek)] + entries_model(tail), p2 + tl),
        ));
    }
}

/// Codec round trip: the wire encoding of a well-formed envelope parses back
/// to exactly that envelope's image. Together with the exact contracts of
/// `encode_envelope` and `decode_envelope`, deserializing a serialized
/// envelope recovers it field for field.
#[verifier::rlimit(60)]
pub proof fn lemma_parse_of_encode(env: &Envelope)
    requires
        env_wf(env),
    ensures
        parse_envelope(encode_spec(env)) == Some(env_model(env)),
{
    let buf = encode_spec(env);
    let sid = env.sender_id@;
    let l0 = enc_str(sid).len() as int;
    let cnt = be64(env.recipients@.len() as u64);
    let le = enc_entries(env.recipients@).len() as int;
    let l3 = enc_bytes(env.nonce@).len() as int;
    let l4 = enc_bytes(env.ciphertext@).len() as int;
    let l5 = enc_bytes(env.tag@).len() as int;
    let l6 = enc_bytes(env.signature@).len() as int;
    assert(buf.len() == l0 + 8 + le + l3 + l4 + l5 + l6);
    assert(buf.subrange(0, l0) =~= enc_str(sid));
    lemma_parse_str_at(buf, 0, sid);
    assert(buf.subrange(l0, l0 + 8) =~= cnt);
    lemma_be64_val_of_be64(env.recipients@.len() as u64);
    let p2 = l0 + 8;
    assert(buf.subrange(p2, p2 + le) =~= enc_entries(env.recipients@));
    lemma_parse_entries_at(buf, p2, env.recipients@);
    let p3 = p2 + le;
    assert(buf.subrange(p3, p3 + l3) =~= enc_bytes(env.nonce@));
    lemma_parse_field_at(buf, p3, env.nonce@);
    let p4 = p3 + l3;
    assert(buf.subrange(p4, p4 + l4) =~= enc_bytes(env.ciphertext@));
    lemma_parse_field_at(buf, p4, env.ciphertext@);
    let p5 = p4 + l4;
    assert(buf.subrange(p5, p5 + l5) =~= enc_bytes(env.tag@));
    lemma_parse_field_at(buf, p5, env.tag@);
    let p6 = p5 + l5;
    assert(buf.subrange(p6, p6 + l6) =~= enc_bytes(env.signature@));
    lemma_parse_field_at(buf, p6, env.signature@);
}

/// The wire encoding of a public identity: its identifier, then its public
/// key.
pub open spec fn encode_identity_spec(id: Seq<char>, key: Seq<u8>) -> Seq<u8> {
    enc_str(id) + enc_bytes(key)
}

/// Identity codec round trip: the wire encoding of a public identity parses
/// back to exactly that identifier and key.
pub proof fn lemma_parse_of_encode_identity(id: Seq<char>, key: Seq<u8>)
    requires
        fits_len(vstd::utf8::encode_utf8(id)),
        fits_len(key),
    ensures
        parse_identity(encode_identity_spec(id, key)) == Some((id, key)),
{
    let buf = encode_identity_spec(id, key);
    let l1 = enc_str(id).len() as int;
    assert(buf.subrange(0, l1) =~= enc_str(id));
    lemma_parse_str_at(buf, 0, id);
    assert(buf.subrange(l1, l1 + enc_bytes(key).len()) =~= enc_bytes(key));
    lemma_parse_field_at(buf, l1, key);
}

/// Parses a public identity export: an identifier and a public key, with
/// nothing left over.
pub open spec fn parse_identity(buf: Seq<u8>) -> Option<(Seq<char>, Seq<u8>)> {
    match parse_str(buf, 0) {
        None => None,
        Some((id, p1)) => match parse_field(buf, p1) {
            None => None,
            Some((key, p2)) => if p2 == buf.len() {
                Some((id, key))
            } else {
                None
            },
        },
    }
}

/// Serializes a recipient's public identity.
pub fn encode_recipient_identity(ident: &RecipientIdentity) -> (r: Vec<u8>)
    ensures
        r@ == encode_identity_spec(ident.id@, ident.kem_public@),
{
    let mut out: Vec<u8> = Vec::new();
    push_str_field(&mut out, &ident.id);
    push_field(&mut out, &ident.kem_public);
    proof {
        assert(out@ =~= encode_identity_spec(ident.id@, ident.kem_public@));
    }
    out
}

/// Serializes a sender's public identity.
pub fn encode_sender_identity(ident: &SenderIdentity) -> (r: Vec<u8>)
    ensures
        r@ == encode_identity_spec(ident.id@, ident.sign_public@),
{
    let mut out: Vec<u8> = Vec::new();
    push_str_field(&mut out, &ident.id);
    push_field(&mut out, &ident.sign_public);
    proof {
        assert(out@ =~= encode_identity_spec(ident.id@, ident.sign_public@));
    }
    out
}

/// Deserializes a recipient's public identity: exactly what the spec parser
/// recovers, or `SerializationFailed`.
pub fn decode_recipient_identity(buf: &Vec<u8>) -> (r: Result<RecipientIdentity, EnvelopeError>)
    ensures
        r matches Ok(ident) ==> parse_identity(buf@) == Some((ident.id@, ident.kem_public@)),
        r matches Err(e) ==> e == EnvelopeError::SerializationFailed && parse_identity(buf@)
            is None,
{
    let (id, p1) = match read_str_spec(buf, 0) {
        Some(x) => x,
        None => {
            return Err(EnvelopeError::SerializationFailed);
        },
    };
    let (key, p2) = match read_field_spec(buf, p1) {
        Some(x) => x,
        None => {
            return Err(EnvelopeError::SerializationFailed);
        },
    };
    if p2 != buf.len() {
        return Err(EnvelopeError::SerializationFailed);
    }
    Ok(RecipientIdentity { id, kem_public: key })
}

/// Deserializes a sender's public identity: exactly what the spec parser
/// recovers, or `SerializationFailed`.
pub fn decode_sender_identity(buf: &Vec<u8>) -> (r: Result<SenderIdentity, EnvelopeError>)
    ensures
        r matches Ok(ident) ==> parse_identity(buf@) == Some((ident.id@, ident.sign_public@)),
        r matches Err(e) ==> e == EnvelopeError::SerializationFailed && parse_identity(buf@)
            is None,
{
    let (id, p1) = match read_str_spec(buf, 0) {
        Some(x) => x,
        None => {
            return Err(EnvelopeError::SerializationFailed);
        },
    };
    let (key, p2) = match read_field_spec(buf, p1) {
        Some(x) => x,
        None => {
            return Err(EnvelopeError::SerializationFailed);
        },
    };
    if p2 != buf.len() {
        return Err(EnvelopeError::SerializationFailed);
    }
    Ok(SenderIdentity { id, sign_public: key })
}

} // verus!
