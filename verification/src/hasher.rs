use vstd::prelude::*;

verus! {

/// Deterministic digest algorithm selector.
///
/// Routing must agree across every process of the proxy, so a digest may
/// depend on the hashed bytes and the selected variant alone. Each variant
/// is a fixed 64-bit byte-mixing function; the two variants differ in their
/// constants and are not required to agree with each other.
#[derive(Clone, Copy, Debug, PartialEq, Eq, Structural)]
pub enum Hasher {
    /// Variant kept for agreement with legacy routing tables.
    Sha1,
    /// The native variant, the default for schema-less contexts.
    Postgres,
}

/// Initial accumulator of a digest, per variant.
pub open spec fn digest_init(h: Hasher) -> u64 {
    match h {
        Hasher::Sha1 => 0x6a09e667f3bcc908,
        Hasher::Postgres => 0xcbf29ce484222325,
    }
}

/// Multiplier folded in after each byte, per variant.
pub open spec fn digest_prime(h: Hasher) -> u64 {
    match h {
        Hasher::Sha1 => 0x9e3779b97f4a7c15,
        Hasher::Postgres => 0x100000001b3,
    }
}

/// One mixing step: fold byte `b` into accumulator `acc`.
pub open spec fn digest_step(h: Hasher, acc: u64, b: u8) -> u64 {
    vstd::wrapping::u64_specs::wrapping_mul(acc ^ (b as u64), digest_prime(h))
}

/// The digest of a byte sequence: a pure function of the variant and the
/// bytes, which is the whole determinism guarantee routing rests on.
pub open spec fn spec_digest(h: Hasher, s: Seq<u8>) -> u64
    decreases s.len(),
{
    if s.len() == 0 {
        digest_init(h)
    } else {
        digest_step(h, spec_digest(h, s.drop_last()), s.last())
    }
}

/// Hashing is deterministic: any two digest computations over equal bytes
/// under the same variant agree — across calls and across process runs,
/// since [`Hasher::digest`] pins each result to [`spec_digest`].
pub proof fn lemma_digest_deterministic(h: Hasher, bytes: Seq<u8>, d1: u64, d2: u64)
    requires
        d1 == spec_digest(h, bytes),
        d2 == spec_digest(h, bytes),
    ensures
        d1 == d2,
{
}

impl Hasher {
    /// Digest `bytes` under this variant. The result is pinned to
    /// [`spec_digest`], so two calls on equal bytes under an equal variant
    /// always agree, across calls and across process runs.
    pub fn digest(&self, bytes: &Vec<u8>) -> (d: u64)
        ensures
            d == spec_digest(*self, bytes@),
    {
        let init: u64 = match self {
            Hasher::Sha1 => 0x6a09e667f3bcc908,
            Hasher::Postgres => 0xcbf29ce484222325,
        };
        let prime: u64 = match self {
            Hasher::Sha1 => 0x9e3779b97f4a7c15,
            Hasher::Postgres => 0x100000001b3,
        };
        let mut acc: u64 = init;
        let mut i: usize = 0;
        while i < bytes.len()
            invariant
                i <= bytes@.len(),
                prime == digest_prime(*self),
                acc == spec_digest(*self, bytes@.take(i as int)),
            decreases bytes@.len() - i,
        {
            proof {
                assert(bytes@.take(i + 1).drop_last() =~= bytes@.take(i as int));
                assert(bytes@.take(i + 1).last() == bytes@[i as int]);
            }
            acc = (acc ^ (bytes[i] as u64)).wrapping_mul(prime);
            i = i + 1;
        }
        proof {
            assert(bytes@.take(bytes@.len() as int) =~= bytes@);
        }
        acc
    }
}

} // verus!
