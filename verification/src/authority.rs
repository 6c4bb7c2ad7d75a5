use vstd::prelude::*;
use crate::address::{Address, addr_eq};
use crate::errors::Error;
use crate::seeds::{Role, vault_seed_view, vault_seeds};

verus! {

/// What the host's deterministic address derivation returns for a program id
/// and a seed set: the derived address and its bump seed, or nothing when no
/// bump seed yields a valid address. The result depends on the arguments
/// alone.
pub uninterp spec fn derived(program: Seq<u8>, seeds: Seq<Seq<u8>>) -> Option<(Seq<u8>, u8)>;

/// Relies on `solana_program::pubkey::Pubkey::try_find_program_address`: a
/// pure search over hash-derived candidate addresses, deterministic in the
/// seeds and the program id, returning a 32-byte address and the bump seed
/// that produced it, or `None` when no bump seed works out.
#[verifier::external_body]
fn find_program_address(program_id: &Address, seeds: &Vec<Vec<u8>>) -> (r: Option<(Address, u8)>)
    ensures
        (match r {
            Some(p) => derived(program_id@, seeds.deep_view()) == Some((p.0@, p.1))
                && p.0@.len() == 32,
            None => derived(program_id@, seeds.deep_view()) is None,
        }),
{
    let pid = solana_program::pubkey::Pubkey::new_from_array(program_id.bytes);
    let seed_slices: Vec<&[u8]> = seeds.iter().map(|s| s.as_slice()).collect();
    solana_program::pubkey::Pubkey::try_find_program_address(&seed_slices, &pid)
        .map(|p| (Address { bytes: p.0.to_bytes() }, p.1))
}

/// The right to move funds out of accounts whose authority is `authority`.
/// Only this crate constructs one, by re-deriving it from the seed material;
/// holding it stands for having supplied the matching seeds. On a real
/// ledger the host runtime additionally restricts such seed-based signing to
/// the owning program itself — an enforcement outside this model, whose seed
/// material is public. The vault operations therefore check exactly what the
/// custody rule demands: that the presented capability matches the vault's
/// recorded authority, regardless of who calls them.
pub struct Capability {
    authority: Address,
    bump: u8,
}

impl Capability {
    /// The address this capability signs for.
    pub closed spec fn auth(&self) -> Seq<u8> {
        self.authority@
    }

    /// The bump seed the derivation settled on.
    pub closed spec fn bump_seed(&self) -> u8 {
        self.bump
    }

    /// Hands out the bump seed, for keeping as re-derivation material.
    pub fn bump(&self) -> (b: u8)
        ensures
            b == self.bump_seed(),
    {
        self.bump
    }

    /// Checks whether this capability signs for the given authority address.
    pub fn authorizes(&self, authority: &Address) -> (r: bool)
        ensures
            r == (self.auth() == authority@),
    {
        addr_eq(&self.authority, authority)
    }
}

/// A seed set the derivation primitive refuses outright: too many seeds, or a
/// seed longer than the host's 32-byte limit.
pub open spec fn seeds_malformed(seeds: Seq<Seq<u8>>) -> bool {
    seeds.len() > 15 || exists|i: int| 0 <= i < seeds.len() && (#[trigger] seeds[i]).len() > 32
}

/// Derives the deterministic address for a seed set together with the signing
/// capability for it. Identical seeds always yield the identical pair;
/// malformed seed material, or seed material no bump seed works for, is
/// reported as `InvalidSeed`.
pub fn derive_authority(program_id: &Address, seed_parts: &Vec<Vec<u8>>) -> (r: Result<
    (Address, Capability),
    Error,
>)
    ensures
        (r matches Ok(p) ==> {
            &&& !seeds_malformed(seed_parts.deep_view())
            &&& derived(program_id@, seed_parts.deep_view()) == Some((p.0@, p.1.bump_seed()))
            &&& p.1.auth() == p.0@
            &&& p.0@.len() == 32
        }),
        (r matches Err(e) ==> e == Error::InvalidSeed && (seeds_malformed(seed_parts.deep_view())
            || derived(program_id@, seed_parts.deep_view()) is None)),
        (r is Ok <==> !seeds_malformed(seed_parts.deep_view()) && derived(
            program_id@,
            seed_parts.deep_view(),
        ) is Some),
{
    if seed_parts.len() > 15 {
        return Err(Error::InvalidSeed);
    }
    let mut i: usize = 0;
    while i < seed_parts.len()
        invariant
            0 <= i <= seed_parts@.len(),
            seed_parts@.len() <= 15,
            forall|j: int| 0 <= j < i ==> (#[trigger] seed_parts.deep_view()[j]).len() <= 32,
        decreases seed_parts@.len() - i,
    {
        if seed_parts[i].len() > 32 {
            proof {
                assert(seed_parts.deep_view()[i as int] == seed_parts@[i as int].deep_view());
                assert(seed_parts.deep_view()[i as int].len() > 32);
            }
            return Err(Error::InvalidSeed);
        }
        i = i + 1;
    }
    match find_program_address(program_id, seed_parts) {
        Some(p) => Ok((p.0, Capability { authority: p.0, bump: p.1 })),
        None => Err(Error::InvalidSeed),
    }
}

/// Derives the address of the vault for one role of one challenge, exactly as
/// an outside party would recompute it.
pub fn derive_vault_address(program_id: &Address, role: Role, id: &Address) -> (r: Result<
    Address,
    Error,
>)
    ensures
        (r matches Ok(a) ==> derived(program_id@, vault_seed_view(role, id@)) matches Some(p)
            && p.0 == a@ && a@.len() == 32),
        (r matches Err(e) ==> e == Error::InvalidSeed && derived(
            program_id@,
            vault_seed_view(role, id@),
        ) is None),
        (r is Ok <==> derived(program_id@, vault_seed_view(role, id@)) is Some),
{
    let seed_parts = vault_seeds(role, id);
    match find_program_address(program_id, &seed_parts) {
        Some(p) => Ok(p.0),
        None => Err(Error::InvalidSeed),
    }
}

} // verus!
