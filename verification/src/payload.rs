//! The typed payload and its byte framing inside the encrypted plaintext:
//! a one-byte tag, for a file a two-byte name length and the name, then the
//! body. Framing and parsing are verified inverses.

use vstd::prelude::*;

verus! {

/// Largest file-name length the two-byte field can carry.
pub const MAX_NAME_LEN: usize = 65535;

/// Largest body the codec accepts: the machine bound, not a ceiling of the
/// codec's own. The text encoding doubles the wire, and the wire adds at
/// most 65682 bytes of framing, nonces, keys and tags to the body, so this
/// is as much as the doubled length can carry in `usize`.
pub const MAX_BODY_LEN: usize = usize::MAX / 2 - 65700;

/// What a blob carries: a plain message, or a named file.
pub enum PayloadType {
    Message,
    File { file_name: Vec<u8> },
}

/// Behavioral modifiers for encoding. Only the default, fully authenticated
/// behavior is defined; the enumeration is the extension point.
pub enum EncodeFlags {
    Plain,
}

/// A recovered payload: the counterpart of `PayloadType`, carrying the body.
#[derive(Debug)]
pub enum DecodedPayload {
    Message { contents: Vec<u8> },
    File { file_name: Vec<u8>, contents: Vec<u8> },
}

/// A successful decode: who sent it, and what it carries.
#[derive(Debug)]
pub struct DecodedMessage {
    pub sender: Vec<u8>,
    pub data: DecodedPayload,
}

/// The mathematical shape of a payload.
pub enum PayloadModel {
    Message { body: Seq<u8> },
    File { name: Seq<u8>, body: Seq<u8> },
}

/// The mathematical shape of a decoded message.
pub struct DecodedModel {
    pub sender: Seq<u8>,
    pub payload: PayloadModel,
}

/// The payload a given type and body stand for.
pub open spec fn payload_model(t: PayloadType, body: Seq<u8>) -> PayloadModel {
    match t {
        PayloadType::Message => PayloadModel::Message { body },
        PayloadType::File { file_name } => PayloadModel::File { name: file_name@, body },
    }
}

/// The payload a decoded value stands for.
pub open spec fn dp_model(d: DecodedPayload) -> PayloadModel {
    match d {
        DecodedPayload::Message { contents } => PayloadModel::Message { body: contents@ },
        DecodedPayload::File { file_name, contents } => PayloadModel::File {
            name: file_name@,
            body: contents@,
        },
    }
}

/// The message a decoded value stands for.
pub open spec fn msg_model(m: DecodedMessage) -> DecodedModel {
    DecodedModel { sender: m.sender@, payload: dp_model(m.data) }
}

/// A payload the codec accepts: name and body within the wire limits.
pub open spec fn payload_wf(p: PayloadModel) -> bool {
    match p {
        PayloadModel::Message { body } => body.len() <= MAX_BODY_LEN,
        PayloadModel::File { name, body } => name.len() <= MAX_NAME_LEN && body.len()
            <= MAX_BODY_LEN,
    }
}

/// The framed bytes of a payload.
pub open spec fn build_payload(p: PayloadModel) -> Seq<u8> {
    match p {
        PayloadModel::Message { body } => seq![0u8] + body,
        PayloadModel::File { name, body } => seq![
            1u8,
            (name.len() % 256) as u8,
            ((name.len() / 256) % 256) as u8,
        ] + name + body,
    }
}

/// The payload framed bytes stand for, if the tag is known and the lengths
/// add up; nothing otherwise.
pub open spec fn parse_payload(pt: Seq<u8>) -> Option<PayloadModel> {
    if pt.len() < 1 {
        None
    } else if pt[0] == 0 {
        Some(PayloadModel::Message { body: pt.subrange(1, pt.len() as int) })
    } else if pt[0] == 1 {
        if pt.len() < 3 {
            None
        } else {
            let nl = pt[1] + 256 * pt[2];
            if pt.len() < 3 + nl {
                None
            } else {
                Some(
                    PayloadModel::File {
                        name: pt.subrange(3, 3 + nl),
                        body: pt.subrange(3 + nl, pt.len() as int),
                    },
                )
            }
        }
    } else {
        None
    }
}

/// Parsing inverts framing for every payload whose name fits the length
/// field: type and name travel intact beside the body.
pub proof fn lemma_parse_build(p: PayloadModel)
    requires
        (match p {
            PayloadModel::Message { .. } => true,
            PayloadModel::File { name, .. } => name.len() <= MAX_NAME_LEN,
        }),
    ensures
        parse_payload(build_payload(p)) == Some(p),
{
    let pt = build_payload(p);
    match p {
        PayloadModel::Message { body } => {
            assert(pt[0] == 0);
            assert(pt.subrange(1, pt.len() as int) =~= body);
        },
        PayloadModel::File { name, body } => {
            let nlen = name.len() as int;
            let lo = (name.len() % 256) as u8;
            let hi = ((name.len() / 256) % 256) as u8;
            assert(pt[0] == 1);
            assert(pt[1] == lo);
            assert(pt[2] == hi);
            assert(nlen / 256 < 256 && nlen % 256 < 256) by (nonlinear_arith)
                requires
                    0 <= nlen <= 65535,
            ;
            assert(lo + 256 * hi == nlen) by {
                vstd::arithmetic::div_mod::lemma_fundamental_div_mod(nlen, 256);
            }
            assert(pt.len() == 3 + nlen + body.len());
            assert(pt.subrange(3, 3 + nlen) =~= name);
            assert(pt.subrange(3 + nlen, pt.len() as int) =~= body);
        },
    }
}

/// Append a copy of every byte of `src` to `dst`.
pub fn push_all(dst: &mut Vec<u8>, src: &Vec<u8>)
    ensures
        final(dst)@ == old(dst)@ + src@,
{
    let mut i: usize = 0;
    while i < src.len()
        invariant
            i <= src@.len(),
            dst@ == old(dst)@ + src@.take(i as int),
        decreases src@.len() - i,
    {
        dst.push(src[i]);
        proof {
            assert(src@.take(i as int + 1) =~= src@.take(i as int) + seq![src@[i as int]]);
            assert(old(dst)@ + src@.take(i as int + 1) =~= (old(dst)@ + src@.take(i as int)).push(
                src@[i as int],
            ));
        }
        i = i + 1;
    }
    proof {
        assert(src@.take(src@.len() as int) =~= src@);
    }
}

/// The concatenation of three byte strings.
pub fn concat3(a: &Vec<u8>, b: &Vec<u8>, c: &Vec<u8>) -> (r: Vec<u8>)
    ensures
        r@ == a@ + b@ + c@,
{
    let mut out: Vec<u8> = Vec::new();
    push_all(&mut out, a);
    push_all(&mut out, b);
    push_all(&mut out, c);
    proof {
        assert(Seq::<u8>::empty() + a@ + b@ + c@ =~= a@ + b@ + c@);
    }
    out
}

/// Frame a payload: tag, length-prefixed name for a file, then the body.
pub fn build_payload_exec(t: &PayloadType, body: &Vec<u8>) -> (r: Vec<u8>)
    requires
        (match t {
            PayloadType::Message => true,
            PayloadType::File { file_name } => file_name@.len() <= MAX_NAME_LEN,
        }),
        body@.len() <= MAX_BODY_LEN,
    ensures
        r@ == build_payload(payload_model(*t, body@)),
        r@.len() <= 3 + MAX_NAME_LEN + MAX_BODY_LEN,
{
    let mut out: Vec<u8> = Vec::new();
    match t {
        PayloadType::Message => {
            out.push(0u8);
            proof {
                assert(out@ =~= seq![0u8]);
            }
        },
        PayloadType::File { file_name } => {
            out.push(1u8);
            let nl = file_name.len();
            out.push((nl % 256) as u8);
            out.push(((nl / 256) % 256) as u8);
            push_all(&mut out, file_name);
            proof {
                assert(out@ =~= seq![
                    1u8,
                    (file_name@.len() % 256) as u8,
                    ((file_name@.len() / 256) % 256) as u8,
                ] + file_name@);
            }
        },
    }
    push_all(&mut out, body);
    proof {
        assert(out@ =~= build_payload(payload_model(*t, body@)));
    }
    out
}

/// Copy of `v[a..b]`.
pub fn sub_vec(v: &Vec<u8>, a: usize, b: usize) -> (r: Vec<u8>)
    requires
        a <= b <= v@.len(),
    ensures
        r@ == v@.subrange(a as int, b as int),
{
    let mut out: Vec<u8> = Vec::new();
    let mut i: usize = a;
    while i < b
        invariant
            a <= i <= b <= v@.len(),
            out@ == v@.subrange(a as int, i as int),
        decreases b - i,
    {
        out.push(v[i]);
        proof {
            assert(v@.subrange(a as int, i as int + 1) =~= v@.subrange(a as int, i as int).push(
                v@[i as int],
            ));
        }
        i = i + 1;
    }
    out
}

/// Parse framed bytes back into a payload.
pub fn parse_payload_exec(pt: &Vec<u8>) -> (r: Option<DecodedPayload>)
    ensures
        (match r {
            Some(d) => parse_payload(pt@) == Some(dp_model(d)),
            None => parse_payload(pt@) is None,
        }),
{
    if pt.len() < 1 {
        return None;
    }
    let tag = pt[0];
    if tag == 0 {
        let contents = sub_vec(pt, 1, pt.len());
        Some(DecodedPayload::Message { contents })
    } else if tag == 1 {
        if pt.len() < 3 {
            return None;
        }
        let nl: usize = pt[1] as usize + 256 * (pt[2] as usize);
        if pt.len() < 3 + nl {
            return None;
        }
        let file_name = sub_vec(pt, 3, 3 + nl);
        let contents = sub_vec(pt, 3 + nl, pt.len());
        Some(DecodedPayload::File { file_name, contents })
    } else {
        None
    }
}

} // verus!
