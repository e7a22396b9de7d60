use vstd::prelude::*;
use vstd::bytes::spec_u32_from_le_bytes;
use vstd::bytes::spec_u32_to_le_bytes;
use vstd::bytes::lemma_auto_spec_u32_to_from_le_bytes;
use vstd::bytes::u32_from_le_bytes;
use vstd::bytes::u32_to_le_bytes;
use vstd::slice::slice_subrange;
use vstd::slice::slice_to_vec;
use crate::bytes_ops::push_bytes;
use crate::errors::DataError;
use crate::records::CanonicalPayload;
use crate::records::PayloadV;

verus! {

/// The canonical encoding of a payload: the key's length in four
/// little-endian bytes, the key, the value's length in four
/// little-endian bytes, then the value.
pub open spec fn encode_spec(p: PayloadV) -> Seq<u8> {
    spec_u32_to_le_bytes(p.key.len() as u32) + p.key + spec_u32_to_le_bytes(
        p.value.len() as u32,
    ) + p.value
}

/// What a byte buffer decodes to: `Some` exactly when the buffer is a
/// well-formed encoding consumed in full, `None` on truncated input,
/// on a length prefix that overruns the buffer, and on trailing
/// unconsumed bytes.
pub open spec fn decode_spec(b: Seq<u8>) -> Option<PayloadV> {
    if b.len() < 4 {
        None
    } else {
        let kl = spec_u32_from_le_bytes(b.subrange(0, 4)) as int;
        if b.len() - 4 < kl {
            None
        } else if b.len() - 4 - kl < 4 {
            None
        } else {
            let vl = spec_u32_from_le_bytes(b.subrange(4 + kl, 8 + kl)) as int;
            if b.len() - 8 - kl != vl {
                None
            } else {
                Some(
                    PayloadV {
                        key: b.subrange(4, 4 + kl),
                        value: b.subrange(8 + kl, b.len() as int),
                    },
                )
            }
        }
    }
}

/// Encodes `p` into bytes. The exact inverse of `decode`: see
/// `lemma_codec_round_trip`.
pub fn encode(p: &CanonicalPayload) -> (r: Vec<u8>)
    requires
        p.key@.len() <= u32::MAX,
        p.value@.len() <= u32::MAX,
    ensures
        r@ == encode_spec(p@),
{
    let mut out = u32_to_le_bytes(p.key.len() as u32);
    push_bytes(&mut out, p.key.as_slice());
    let tail = u32_to_le_bytes(p.value.len() as u32);
    push_bytes(&mut out, tail.as_slice());
    push_bytes(&mut out, p.value.as_slice());
    out
}

/// Decodes `bytes` into a payload, rejecting truncated buffers, length
/// prefixes that overrun the buffer, and trailing unconsumed bytes.
pub fn decode(bytes: &[u8]) -> (r: Result<CanonicalPayload, DataError>)
    ensures
        (match decode_spec(bytes@) {
            Some(p) => r matches Ok(c) && c@ == p,
            None => r matches Err(e) && e == DataError::DecodeError,
        }),
{
    let n = bytes.len();
    if n < 4 {
        return Err(DataError::DecodeError);
    }
    let kl32 = u32_from_le_bytes(slice_subrange(bytes, 0, 4));
    let kl = kl32 as usize;
    if n - 4 < kl {
        return Err(DataError::DecodeError);
    }
    if n - 4 - kl < 4 {
        return Err(DataError::DecodeError);
    }
    let vl32 = u32_from_le_bytes(slice_subrange(bytes, 4 + kl, 8 + kl));
    let vl = vl32 as usize;
    if n - 8 - kl != vl {
        return Err(DataError::DecodeError);
    }
    let key = slice_to_vec(slice_subrange(bytes, 4, 4 + kl));
    let value = slice_to_vec(slice_subrange(bytes, 8 + kl, n));
    Ok(CanonicalPayload { key, value })
}

/// Decoding an encoded payload gives the payload back, and encoding
/// never produces a buffer that decoding rejects.
pub proof fn lemma_codec_round_trip(p: PayloadV)
    requires
        p.key.len() <= u32::MAX,
        p.value.len() <= u32::MAX,
    ensures
        decode_spec(encode_spec(p)) == Some(p),
{
    lemma_auto_spec_u32_to_from_le_bytes();
    let ka = spec_u32_to_le_bytes(p.key.len() as u32);
    let va = spec_u32_to_le_bytes(p.value.len() as u32);
    let b = encode_spec(p);
    let k = p.key.len() as int;
    let v = p.value.len() as int;
    assert(ka.len() == 4 && va.len() == 4);
    assert(b.len() == 8 + k + v);
    assert(b.subrange(0, 4) =~= ka);
    assert(spec_u32_from_le_bytes(ka) == p.key.len() as u32);
    assert(b.subrange(4 + k, 8 + k) =~= va);
    assert(spec_u32_from_le_bytes(va) == p.value.len() as u32);
    assert(b.subrange(4, 4 + k) =~= p.key);
    assert(b.subrange(8 + k, b.len() as int) =~= p.value);
    assert(decode_spec(b) matches Some(q) && q =~= p);
}

} // verus!
