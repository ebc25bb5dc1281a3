//! Body obfuscation as RFC 8907 section 4.5 defines it: the body is XORed
//! with a pseudo-pad of concatenated MD5 digests, each computed over the
//! session id, the shared secret, the version byte and the sequence
//! number, with the previous digest appended from the second chunk on.

use vstd::prelude::*;
use crate::packet::HeaderInfo;
use crate::trusted::{md5_digest, md5_of};
use crate::wire::be32;

verus! {

/// The hashed prefix common to every pad chunk: session id (big endian),
/// secret, version byte, sequence number.
pub open spec fn pad_prefix(session_id: u32, key: Seq<u8>, version_byte: u8, seq_no: u8) -> Seq<
    u8,
> {
    be32(session_id) + key + seq![version_byte, seq_no]
}

/// The pad prefix a header and secret determine.
pub open spec fn header_pad_prefix(h: HeaderInfo, key: Seq<u8>) -> Seq<u8> {
    pad_prefix(h.session_id, key, h.version.spec_wire_value(), h.sequence_number)
}

/// Pad chunk `k`: the MD5 digest of the prefix, with the previous chunk
/// appended for every chunk after the first.
pub open spec fn pad_chunk(prefix: Seq<u8>, k: nat) -> Seq<u8>
    decreases k,
{
    if k == 0 {
        md5_of(prefix)
    } else {
        md5_of(prefix + pad_chunk(prefix, (k - 1) as nat))
    }
}

/// The pad byte at position `i`: byte `i % 16` of chunk `i / 16`.
pub open spec fn pad_byte(prefix: Seq<u8>, i: int) -> u8 {
    pad_chunk(prefix, (i / 16) as nat)[i % 16]
}

/// A byte sequence XORed with the pseudo-pad, byte for byte.
pub open spec fn xor_with_pad(prefix: Seq<u8>, body: Seq<u8>) -> Seq<u8> {
    Seq::new(body.len(), |i: int| body[i] ^ pad_byte(prefix, i))
}

/// XORing with the pad twice gives the body back: obfuscation is its own
/// inverse.
pub proof fn lemma_xor_involution(prefix: Seq<u8>, body: Seq<u8>)
    ensures
        xor_with_pad(prefix, xor_with_pad(prefix, body)) == body,
{
    let once = xor_with_pad(prefix, body);
    let twice = xor_with_pad(prefix, once);
    assert forall|i: int| 0 <= i < body.len() implies twice[i] == body[i] by {
        let b = body[i];
        let p = pad_byte(prefix, i);
        assert(once[i] == b ^ p);
        assert(twice[i] == (b ^ p) ^ p);
        assert((b ^ p) ^ p == b) by (bit_vector);
    }
    assert(twice =~= body);
}

/// XORs the packet body in place with the pseudo-pad that the header and
/// secret determine. Since the pad does not depend on the body, applying
/// this twice restores the body.
pub fn xor_body_with_pad(header: &HeaderInfo, secret_key: &Vec<u8>, body_buffer: &mut Vec<u8>)
    ensures
        final(body_buffer)@ == xor_with_pad(header_pad_prefix(*header, secret_key@), old(
            body_buffer,
        )@),
{
    let ghost pref = header_pad_prefix(*header, secret_key@);
    let mut prefix: Vec<u8> = Vec::new();
    crate::wire::push_u32_be(&mut prefix, header.session_id());
    crate::wire::push_bytes(&mut prefix, secret_key);
    prefix.push(header.version().wire_value());
    prefix.push(header.sequence_number());
    proof {
        assert(prefix@ =~= pref);
    }
    let n: usize = body_buffer.len();
    let mut pad: Vec<u8> = md5_digest(&prefix);
    let mut i: usize = 0;
    while i < n
        invariant
            n == body_buffer@.len(),
            n == old(body_buffer)@.len(),
            i <= n,
            prefix@ == pref,
            i < n ==> i % 16 == 0,
            i < n ==> pad@ == pad_chunk(pref, (i / 16) as nat),
            i < n ==> pad@.len() == 16,
            body_buffer@ == xor_with_pad(pref, old(body_buffer)@).take(i as int) + old(
                body_buffer,
            )@.skip(i as int),
        decreases n - i,
    {
        let ghost chunk_index = (i / 16) as nat;
        let mut j: usize = 0;
        while j < 16 && i + j < n
            invariant
                n == body_buffer@.len(),
                n == old(body_buffer)@.len(),
                i + j <= n,
                j <= 16,
                i % 16 == 0,
                i < n,
                pad@ == pad_chunk(pref, chunk_index),
                pad@.len() == 16,
                chunk_index == (i / 16) as nat,
                body_buffer@ == xor_with_pad(pref, old(body_buffer)@).take(i + j) + old(
                    body_buffer,
                )@.skip(i + j),
            decreases 16 - j,
        {
            let idx = i + j;
            proof {
                assert((i + j) / 16 == i / 16 && (i + j) % 16 == j) by (nonlinear_arith)
                    requires
                        i % 16 == 0,
                        0 <= j < 16,
                        i >= 0,
                ;
                assert(pad_byte(pref, idx as int) == pad@[j as int]);
            }
            let b = body_buffer[idx];
            body_buffer[idx] = b ^ pad[j];
            j += 1;
            assert(body_buffer@ =~= xor_with_pad(pref, old(body_buffer)@).take((i + j) as int)
                + old(body_buffer)@.skip((i + j) as int));
        }
        i += j;
        if i < n {
            let mut next_input = prefix.clone();
            crate::wire::push_bytes(&mut next_input, &pad);
            proof {
                assert(next_input@ =~= pref + pad_chunk(pref, chunk_index));
            }
            pad = md5_digest(&next_input);
            proof {
                assert(j == 16);
                assert(i / 16 == chunk_index + 1) by (nonlinear_arith)
                    requires
                        i == 16 * chunk_index + 16,
                ;
                assert(i % 16 == 0) by (nonlinear_arith)
                    requires
                        i == 16 * chunk_index + 16,
                ;
                assert(pad@ == pad_chunk(pref, (i / 16) as nat));
            }
        }
    }
    proof {
        assert(body_buffer@ =~= xor_with_pad(pref, old(body_buffer)@));
    }
}

} // verus!
