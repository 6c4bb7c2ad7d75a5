use vstd::prelude::*;
use crate::address::Address;
use crate::authority::derived;
use crate::seeds::{Role, challenge_seed_view, vault_seed_view};
use crate::vault::Vault;

verus! {

/// The lifecycle of a challenge. The status only ever advances:
/// `Created -> Accepted -> Resolved`, never back.
#[derive(Clone, Copy, Debug, PartialEq, Eq, Structural)]
pub enum Status {
    Created,
    Accepted,
    Resolved,
}

/// Everything the acceptor brings to a challenge; unset until acceptance,
/// then immutable.
#[derive(Clone, Copy, Debug)]
pub struct AcceptorSide {
    /// The accepting party's identity.
    pub acceptor: Address,
    /// The asset type of the acceptor's stake.
    pub asset_type: Address,
    /// The custody vault holding the acceptor's stake.
    pub vault: Vault,
    /// The acceptor's committed quantity; always positive.
    pub wager_amount: u64,
}

/// One wager's record, living from creation to resolution. The record's own
/// address (`id`) doubles as the transfer authority of both vaults: funds
/// move only under the capability re-derived from the record's seed material.
#[derive(Clone, Copy, Debug)]
pub struct Challenge {
    /// The record's deterministic address, derived from the initiator.
    pub id: Address,
    /// The bump seed of the id derivation: the seed material that re-derives
    /// the signing capability at payout time.
    pub authority_bump: u8,
    /// The creating party's identity. Immutable once set.
    pub initiator: Address,
    /// The asset type of the initiator's stake.
    pub initiator_asset_type: Address,
    /// The custody vault holding the initiator's stake.
    pub initiator_vault: Vault,
    /// The initiator's committed quantity; always positive.
    pub initiator_wager_amount: u64,
    /// The acceptor's half, set exactly once while the status is `Created`.
    pub acceptor_side: Option<AcceptorSide>,
    /// Where in the lifecycle the challenge stands.
    pub status: Status,
}

/// Whether challenge `c` occupies address `a`: as its own record, or as one
/// of its vaults. Fresh derived addresses must be free of every such use.
pub open spec fn uses_addr(c: Challenge, a: Seq<u8>) -> bool {
    ||| c.id@ == a
    ||| c.initiator_vault.address@ == a
    ||| (c.acceptor_side matches Some(s) && s.vault.address@ == a)
}

/// Two challenges collide on no address: ids and vaults all distinct.
pub open spec fn ch_disjoint(c1: Challenge, c2: Challenge) -> bool {
    &&& !uses_addr(c2, c1.id@)
    &&& !uses_addr(c2, c1.initiator_vault.address@)
    &&& (c1.acceptor_side matches Some(s) ==> !uses_addr(c2, s.vault.address@))
}

/// Both stakes stand in their vaults exactly as declared: the recorded
/// balances equal the wager amounts and neither vault is closed. Resolution
/// refuses to run on anything else.
pub open spec fn vaults_funded(c: Challenge) -> bool {
    &&& !c.initiator_vault.closed
    &&& c.initiator_vault.balance == c.initiator_wager_amount
    &&& (c.acceptor_side matches Some(s) && !s.vault.closed && s.vault.balance == s.wager_amount)
}

/// Well-formedness of one challenge record under a given program id: every
/// address is the derivation the seeds say, the vaults carry the declared
/// asset types and the record's own authority, and the balances and closed
/// flags are exactly what the status demands.
pub open spec fn ch_wf(c: Challenge, program: Seq<u8>) -> bool {
    &&& c.initiator_wager_amount > 0
    &&& c.id@.len() == 32
    &&& derived(program, challenge_seed_view(c.initiator@)) == Some((c.id@, c.authority_bump))
    &&& (derived(program, vault_seed_view(Role::Initiator, c.id@)) matches Some(p) && p.0
        == c.initiator_vault.address@)
    &&& c.initiator_vault.asset_type == c.initiator_asset_type
    &&& c.initiator_vault.authority == c.id
    &&& c.initiator_vault.address@ != c.id@
    &&& (match c.acceptor_side {
        None => c.status == Status::Created,
        Some(s) => {
            &&& c.status != Status::Created
            &&& s.wager_amount > 0
            &&& (derived(program, vault_seed_view(Role::Acceptor, c.id@)) matches Some(p) && p.0
                == s.vault.address@)
            &&& s.vault.asset_type == s.asset_type
            &&& s.vault.authority == c.id
            &&& s.vault.address@ != c.id@
            &&& s.vault.address@ != c.initiator_vault.address@
        },
    })
    &&& (match c.status {
        Status::Created => !c.initiator_vault.closed && c.initiator_vault.balance
            == c.initiator_wager_amount,
        Status::Accepted => {
            &&& !c.initiator_vault.closed
            &&& c.initiator_vault.balance == c.initiator_wager_amount
            &&& (c.acceptor_side matches Some(s) && !s.vault.closed && s.vault.balance
                == s.wager_amount)
        },
        Status::Resolved => {
            &&& c.initiator_vault.closed
            &&& c.initiator_vault.balance == 0
            &&& (c.acceptor_side matches Some(s) && s.vault.closed && s.vault.balance == 0)
        },
    })
}

} // verus!
