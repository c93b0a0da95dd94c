//! Widget identifiers: 32-bit FNV-1a hashes of a scope seed and a value.
use vstd::prelude::*;

verus! {

/// The FNV-1a offset basis: the seed when no scope is pushed.
pub const FNV_BASIS: u32 = 2166136261;

/// The 32-bit FNV prime.
pub const FNV_PRIME: u32 = 16777619;

/// One FNV-1a round: xor the byte in, then multiply modulo 2^32.
pub open spec fn fnv_step(h: u32, b: u8) -> u32 {
    (((h ^ (b as u32)) as nat * FNV_PRIME as nat) % 0x1_0000_0000nat) as u32
}

/// FNV-1a of `bytes`, starting from `seed`.
pub open spec fn fnv(seed: u32, bytes: Seq<u8>) -> u32
    decreases bytes.len(),
{
    if bytes.len() == 0 {
        seed
    } else {
        fnv_step(fnv(seed, bytes.drop_last()), bytes.last())
    }
}

/// The `n` low bytes of `v`, least significant first.
pub open spec fn le_bytes(v: nat, n: nat) -> Seq<u8>
    decreases n,
{
    if n == 0 {
        Seq::empty()
    } else {
        seq![(v % 256) as u8] + le_bytes(v / 256, (n - 1) as nat)
    }
}

/// A widget identifier.
#[derive(Clone, Copy, Debug, Default, PartialEq, Eq, Structural, Hash)]
pub struct Id(pub u32);

fn fnv_round(h: u32, b: u8) -> (r: u32)
    ensures
        r == fnv_step(h, b),
{
    let x: u32 = h ^ (b as u32);
    ((x as u64 * FNV_PRIME as u64) % 0x1_0000_0000u64) as u32
}

impl Id {
    /// The identifier that scopes start from.
    pub fn start() -> (r: Id)
        ensures
            r.0 == FNV_BASIS,
    {
        Id(FNV_BASIS)
    }

    /// Folds `bytes` into the hash.
    pub fn hash(&mut self, bytes: &[u8])
        ensures
            final(self).0 == fnv(old(self).0, bytes@),
    {
        let ghost seed = self.0;
        let mut h = self.0;
        let mut i: usize = 0;
        while i < bytes.len()
            invariant
                i <= bytes@.len(),
                h == fnv(seed, bytes@.take(i as int)),
            decreases bytes@.len() - i,
        {
            proof {
                assert(bytes@.take(i as int + 1).drop_last() =~= bytes@.take(i as int));
            }
            h = fnv_round(h, bytes[i]);
            i = i + 1;
        }
        assert(bytes@.take(i as int) =~= bytes@);
        self.0 = h;
    }

    /// Folds the `n` low bytes of `v` into the hash, least significant first.
    pub fn hash_le(&mut self, v: u64, n: usize)
        requires
            n <= 8,
        ensures
            final(self).0 == fnv(old(self).0, le_bytes(v as nat, n as nat)),
    {
        let ghost seed = self.0;
        let ghost mut done: Seq<u8> = Seq::empty();
        let mut rest = v;
        let mut h = self.0;
        let mut i: usize = 0;
        while i < n
            invariant
                i <= n,
                h == fnv(seed, done),
                done + le_bytes(rest as nat, (n - i) as nat) == le_bytes(v as nat, n as nat),
            decreases n - i,
        {
            let b = (rest % 256) as u8;
            proof {
                let k = (n - i) as nat;
                let tail = le_bytes((rest / 256) as nat, (k - 1) as nat);
                assert(le_bytes(rest as nat, k) == seq![b] + tail);
                assert(done + (seq![b] + tail) =~= done.push(b) + tail);
                assert(done.push(b).drop_last() =~= done);
                done = done.push(b);
            }
            h = fnv_round(h, b);
            rest = rest / 256;
            i = i + 1;
        }
        assert(done + le_bytes(rest as nat, 0) =~= done);
        self.0 = h;
    }
}

/// An identifier is a function of the scope it is made in and of the hashed content alone:
/// the same seed and the same bytes give the same identifier, whenever it is asked for.
pub proof fn lemma_identify_deterministic(seed_a: u32, bytes_a: Seq<u8>, seed_b: u32, bytes_b: Seq<u8>)
    requires
        seed_a == seed_b,
        bytes_a == bytes_b,
    ensures
        fnv(seed_a, bytes_a) == fnv(seed_b, bytes_b),
{
}

} // verus!
