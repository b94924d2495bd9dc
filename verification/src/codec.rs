//! Vector codec: lossless conversion between a vector of 64-bit words (the
//! IEEE-754 bit patterns of a parameter vector) and a byte buffer, eight
//! little-endian bytes per element.

use vstd::bytes::{
    lemma_auto_spec_u64_to_from_le_bytes, spec_u64_from_le_bytes, spec_u64_to_le_bytes,
    u64_from_le_bytes, u64_to_le_bytes,
};
use vstd::prelude::*;
use vstd::slice::slice_subrange;

verus! {

/// Error returned when a byte buffer cannot be decoded as a vector of words.
#[derive(Clone, Copy, Debug, PartialEq, Eq, Structural)]
pub enum CodecError {
    /// The buffer length is not a multiple of the eight-byte element width.
    BadLength,
}

/// The byte string that encodes the word sequence `v`: eight little-endian
/// bytes per word, in order, with no framing.
pub open spec fn encoded(v: Seq<u64>) -> Seq<u8>
    decreases v.len(),
{
    if v.len() == 0 {
        Seq::empty()
    } else {
        spec_u64_to_le_bytes(v[0]) + encoded(v.drop_first())
    }
}

/// The word sequence read back from the byte string `b`, eight little-endian
/// bytes per word; meaningful when `b.len()` is a multiple of eight.
pub open spec fn decoded(b: Seq<u8>) -> Seq<u64> {
    Seq::new(b.len() / 8, |k: int| spec_u64_from_le_bytes(b.subrange(8 * k, 8 * k + 8)))
}

/// An encoded sequence takes exactly eight bytes per word.
pub proof fn lemma_encoded_len(v: Seq<u64>)
    ensures
        encoded(v).len() == 8 * v.len(),
    decreases v.len(),
{
    lemma_auto_spec_u64_to_from_le_bytes();
    if v.len() > 0 {
        lemma_encoded_len(v.drop_first());
    }
}

/// Appending one word to a vector appends its eight bytes to the encoding.
pub proof fn lemma_encoded_push(v: Seq<u64>, x: u64)
    ensures
        encoded(v.push(x)) == encoded(v) + spec_u64_to_le_bytes(x),
    decreases v.len(),
{
    lemma_auto_spec_u64_to_from_le_bytes();
    assert(encoded(v.push(x)) == spec_u64_to_le_bytes(v.push(x)[0]) + encoded(
        v.push(x).drop_first(),
    ));
    assert(v.push(x)[0] == v.push(x).first());
    if v.len() == 0 {
        assert(v.push(x)[0] == x);
        assert(v.push(x).drop_first() =~= Seq::<u64>::empty());
        assert(encoded(Seq::<u64>::empty()) == Seq::<u8>::empty());
        assert(encoded(v) == Seq::<u8>::empty());
        assert(encoded(v.push(x)) =~= encoded(v) + spec_u64_to_le_bytes(x));
    } else {
        assert(v.push(x)[0] == v[0]);
        assert(v.push(x).drop_first() =~= v.drop_first().push(x));
        lemma_encoded_push(v.drop_first(), x);
        assert(encoded(v.push(x)) == spec_u64_to_le_bytes(v[0]) + (encoded(v.drop_first())
            + spec_u64_to_le_bytes(x)));
        assert(encoded(v) == spec_u64_to_le_bytes(v[0]) + encoded(v.drop_first()));
        assert(encoded(v.push(x)) =~= encoded(v) + spec_u64_to_le_bytes(x));
    }
}

/// The bytes of the `k`-th word stand at offset `8 * k` of the encoding.
pub proof fn lemma_encoded_index(v: Seq<u64>, k: int)
    requires
        0 <= k < v.len(),
    ensures
        encoded(v).subrange(8 * k, 8 * k + 8) == spec_u64_to_le_bytes(v[k]),
    decreases v.len(),
{
    lemma_auto_spec_u64_to_from_le_bytes();
    lemma_encoded_len(v);
    if k == 0 {
        assert(encoded(v).subrange(0, 8) =~= spec_u64_to_le_bytes(v[0]));
    } else {
        lemma_encoded_len(v.drop_first());
        lemma_encoded_index(v.drop_first(), k - 1);
        assert(encoded(v).subrange(8 * k, 8 * k + 8) =~= encoded(v.drop_first()).subrange(
            8 * (k - 1),
            8 * (k - 1) + 8,
        ));
        assert(v.drop_first()[k - 1] == v[k]);
    }
}

/// Codec round trip: decoding an encoded vector yields the vector back,
/// bit for bit, for vectors of any length.
pub proof fn lemma_codec_round_trip(v: Seq<u64>)
    ensures
        decoded(encoded(v)) == v,
{
    lemma_auto_spec_u64_to_from_le_bytes();
    lemma_encoded_len(v);
    assert forall|k: int| 0 <= k < v.len() implies decoded(encoded(v))[k] == v[k] by {
        lemma_encoded_index(v, k);
    }
    assert(decoded(encoded(v)) =~= v);
}

/// Decoding loses nothing: a buffer of whole words re-encodes, word by word,
/// to exactly itself.
pub proof fn lemma_decoded_inverse(b: Seq<u8>)
    requires
        b.len() % 8 == 0,
    ensures
        encoded(decoded(b)) == b,
{
    let w = decoded(b);
    lemma_auto_spec_u64_to_from_le_bytes();
    lemma_encoded_len(w);
    vstd::arithmetic::div_mod::lemma_fundamental_div_mod(b.len() as int, 8);
    assert(encoded(w).len() == b.len());
    assert forall|j: int| 0 <= j < b.len() implies encoded(w)[j] == b[j] by {
        let k = j / 8;
        vstd::arithmetic::div_mod::lemma_fundamental_div_mod(j, 8);
        assert(0 <= j % 8 < 8);
        assert(0 <= k < w.len());
        lemma_encoded_index(w, k);
        let part = b.subrange(8 * k, 8 * k + 8);
        assert(part.len() == 8);
        assert(spec_u64_to_le_bytes(spec_u64_from_le_bytes(part)) == part);
        assert(encoded(w)[j] == encoded(w).subrange(8 * k, 8 * k + 8)[j - 8 * k]);
        assert(part[j - 8 * k] == b[j]);
    }
    assert(encoded(w) =~= b);
}

/// Encodes a vector of words as a byte buffer, eight little-endian bytes per
/// element.
pub fn encode(v: &Vec<u64>) -> (r: Vec<u8>)
    ensures
        r@ == encoded(v@),
        r@.len() == 8 * v@.len(),
{
    let mut out: Vec<u8> = Vec::new();
    let mut i: usize = 0;
    while i < v.len()
        invariant
            i <= v@.len(),
            out@ == encoded(v@.subrange(0, i as int)),
        decreases v@.len() - i,
    {
        let mut word: Vec<u8> = u64_to_le_bytes(v[i]);
        proof {
            lemma_encoded_push(v@.subrange(0, i as int), v@[i as int]);
            assert(v@.subrange(0, i as int).push(v@[i as int]) =~= v@.subrange(0, i + 1 as int));
        }
        out.append(&mut word);
        i = i + 1;
    }
    proof {
        assert(v@.subrange(0, v@.len() as int) =~= v@);
        lemma_encoded_len(v@);
    }
    out
}

/// Decodes a byte buffer into the vector of words it encodes. Fails exactly
/// when the buffer length is not a multiple of the eight-byte element width.
pub fn decode(b: &Vec<u8>) -> (r: Result<Vec<u64>, CodecError>)
    ensures
        match r {
            Ok(v) => b@.len() % 8 == 0 && v@ == decoded(b@) && encoded(v@) == b@,
            Err(e) => b@.len() % 8 != 0 && e == CodecError::BadLength,
        },
{
    let len: usize = b.len();
    if len % 8 != 0 {
        return Err(CodecError::BadLength);
    }
    let n: usize = len / 8;
    proof {
        vstd::arithmetic::div_mod::lemma_fundamental_div_mod(len as int, 8);
        assert(b@.len() == 8 * n);
    }
    let mut out: Vec<u64> = Vec::new();
    let mut k: usize = 0;
    while k < n
        invariant
            k <= n,
            b@.len() == 8 * n,
            b@.len() % 8 == 0,
            b@.len() <= usize::MAX,
            out@.len() == k,
            forall|j: int| 0 <= j < k ==> out@[j] == decoded(b@)[j],
        decreases n - k,
    {
        let chunk: &[u8] = slice_subrange(b.as_slice(), 8 * k, 8 * k + 8);
        let w: u64 = u64_from_le_bytes(chunk);
        out.push(w);
        k = k + 1;
    }
    proof {
        assert(out@ =~= decoded(b@));
        lemma_decoded_inverse(b@);
    }
    Ok(out)
}

} // verus!
