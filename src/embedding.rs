//! The fallback embedding profile: byte weights spread over a fixed number of
//! buckets. Scaled to unit length, it is the record's embedding vector.
use vstd::prelude::*;
use vstd::arithmetic::div_mod::lemma_add_mod_noop;
use vstd::string::StringSliceAdditionalSpecFns;
use vstd::utf8::encode_utf8;

verus! {

/// The length of every embedding.
pub const EMBEDDING_DIM: usize = 384;

/// The weights after the first `n` bytes: byte `b` at position `i` adds `b`
/// to bucket `(b + i) mod EMBEDDING_DIM`.
pub open spec fn weights_upto(bytes: Seq<u8>, n: nat) -> Seq<int>
    decreases n,
{
    if n == 0 {
        Seq::new(EMBEDDING_DIM as nat, |k: int| 0int)
    } else {
        let prev = weights_upto(bytes, (n - 1) as nat);
        let b = bytes[n - 1] as int;
        let k = (b + (n - 1)) % (EMBEDDING_DIM as int);
        prev.update(k, prev[k] + b)
    }
}

/// The weight profile of a whole byte string.
pub open spec fn weights_of(bytes: Seq<u8>) -> Seq<int> {
    weights_upto(bytes, bytes.len())
}

/// The weight profile of a text, over its UTF-8 encoding.
pub open spec fn profile_of(text: Seq<char>) -> Seq<u128> {
    Seq::new(EMBEDDING_DIM as nat, |k: int| weights_of(encode_utf8(text))[k] as u128)
}

/// Every profile has `EMBEDDING_DIM` buckets, each between zero and
/// 255 times the number of bytes read.
pub proof fn lemma_weights_bounds(bytes: Seq<u8>, n: nat)
    requires
        n <= bytes.len(),
    ensures
        weights_upto(bytes, n).len() == EMBEDDING_DIM,
        forall|k: int|
            0 <= k < EMBEDDING_DIM ==> 0 <= #[trigger] weights_upto(bytes, n)[k] <= 255 * n,
    decreases n,
{
    if n > 0 {
        lemma_weights_bounds(bytes, (n - 1) as nat);
    }
}

/// Computes the weight profile of a text's UTF-8 bytes.
pub fn byte_weights(content: &str) -> (r: Vec<u128>)
    ensures
        r@ == profile_of(content@),
{
    let bytes = content.as_bytes();
    let mut w: Vec<u128> = vec![0u128; EMBEDDING_DIM];
    let mut i: usize = 0;
    while i < bytes.len()
        invariant
            i <= bytes@.len(),
            bytes@ == content.spec_bytes(),
            w@.len() == EMBEDDING_DIM,
            forall|k: int|
                0 <= k < EMBEDDING_DIM ==> #[trigger] w@[k] as int == weights_upto(bytes@, i as nat)[k],
        decreases bytes.len() - i,
    {
        proof {
            lemma_weights_bounds(bytes@, i as nat);
            lemma_add_mod_noop(bytes@[i as int] as int, i as int, EMBEDDING_DIM as int);
        }
        let b: u8 = bytes[i];
        let k: usize = ((b as usize) + i % EMBEDDING_DIM) % EMBEDDING_DIM;
        assert((b as int) % (EMBEDDING_DIM as int) == b as int);
        assert(k as int == (b as int + i as int) % (EMBEDDING_DIM as int));
        assert(w@[k as int] <= 255 * (i as int));
        assert(255 * (i as int) < 255 * 0x1_0000_0000_0000_0000int) by (nonlinear_arith)
            requires i < 0x1_0000_0000_0000_0000int;
        let v: u128 = w[k] + b as u128;
        w.set(k, v);
        i += 1;
        assert(weights_upto(bytes@, i as nat) == weights_upto(bytes@, (i - 1) as nat).update(
            k as int,
            weights_upto(bytes@, (i - 1) as nat)[k as int] + b as int,
        ));
    }
    proof {
        lemma_weights_bounds(bytes@, i as nat);
    }
    assert(w@ =~= profile_of(content@));
    w
}

} // verus!
