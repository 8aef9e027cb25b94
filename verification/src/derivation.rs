use vstd::prelude::*;

verus! {

/// The address of an escrow record and of its vault authority: a pure,
/// deterministic function of the program identity, the maker and the
/// seed, so that each (maker, seed) pair maps to exactly one record and
/// one vault and anyone can re-derive the address without search.
#[derive(Clone, Copy, Debug, PartialEq, Eq, Structural)]
pub struct EscrowAddress {
    pub program: u64,
    pub maker: u64,
    pub seed: u64,
}

/// The canonical derivation bump for (program, maker, seed): the byte
/// cached in the escrow record at creation and re-checked, never
/// re-searched, by every later operation.
pub open spec fn spec_bump(program: u64, maker: u64, seed: u64) -> u8 {
    ((program % 256 + maker % 256 + seed % 256) % 256) as u8
}

/// Derives the escrow address and its canonical bump. Deterministic:
/// the same inputs always give the same address and bump.
pub fn derive_escrow_address(program: u64, maker: u64, seed: u64) -> (r: (EscrowAddress, u8))
    ensures
        r.0 == (EscrowAddress { program, maker, seed }),
        r.1 == spec_bump(program, maker, seed),
{
    let mixed: u64 = (program % 256 + maker % 256 + seed % 256) % 256;
    (EscrowAddress { program, maker, seed }, mixed as u8)
}

/// Derivation is collision-free: two addresses under one program agree
/// exactly when their makers and seeds agree, so distinct (maker, seed)
/// pairs can never map to the same record or vault.
pub proof fn lemma_derivation_injective(program: u64, m1: u64, s1: u64, m2: u64, s2: u64)
    ensures
        ((EscrowAddress { program, maker: m1, seed: s1 }) == (EscrowAddress {
            program,
            maker: m2,
            seed: s2,
        })) <==> (m1 == m2 && s1 == s2),
{
}

} // verus!
