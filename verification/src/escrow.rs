use vstd::prelude::*;
use crate::address::{Address, Account, addr_eq};
use crate::authority::{Capability, derived, derive_authority, derive_vault_address};
use crate::challenge::{AcceptorSide, Challenge, Status, ch_disjoint, ch_wf, uses_addr, vaults_funded};
use crate::errors::Error;
use crate::seeds::{Role, challenge_seed_view, challenge_seeds, vault_seed_view};
use crate::payout::{balance_total, credit, first_match, lemma_credit, lemma_credit_keeps_assets, lemma_first_match, lemma_total_two};
use crate::vault::Vault;

verus! {

/// The escrow as a whole: the program identity the authority derivations are
/// made under, and the append-only store of challenge records. Each record
/// carries its two custody vaults.
pub struct Escrow {
    /// The fixed program identity; a configuration constant.
    pub program_id: Address,
    /// Every challenge ever created, in creation order.
    pub challenges: Vec<Challenge>,
}

impl Escrow {
    /// The escrow's global invariant: every record is well-formed under the
    /// program id, and no two records collide on any address.
    pub open spec fn wf(self) -> bool {
        &&& forall|i: int|
            0 <= i < self.challenges@.len() ==> ch_wf(
                #[trigger] self.challenges@[i],
                self.program_id@,
            )
        &&& forall|i: int, j: int|
            0 <= i < j < self.challenges@.len() ==> ch_disjoint(
                #[trigger] self.challenges@[i],
                #[trigger] self.challenges@[j],
            )
    }

    /// Whether some record or vault already occupies address `a`.
    pub open spec fn addr_used(self, a: Seq<u8>) -> bool {
        exists|i: int|
            0 <= i < self.challenges@.len() && uses_addr(#[trigger] self.challenges@[i], a)
    }

    /// Whether a challenge with this id exists.
    pub open spec fn has_challenge(self, id: Seq<u8>) -> bool {
        exists|i: int|
            0 <= i < self.challenges@.len() && (#[trigger] self.challenges@[i]).id@ == id
    }

    /// The index of the challenge with this id (unique under `wf`).
    pub open spec fn idx_of(self, id: Seq<u8>) -> int {
        choose|i: int|
            0 <= i < self.challenges@.len() && (#[trigger] self.challenges@[i]).id@ == id
    }

    /// The challenge record with this id.
    pub open spec fn challenge_of(self, id: Seq<u8>) -> Challenge {
        self.challenges@[self.idx_of(id)]
    }

    /// Under the invariant, no two records share an id.
    pub proof fn lemma_unique_ids(self, i: int, j: int)
        requires
            self.wf(),
            0 <= i < self.challenges@.len(),
            0 <= j < self.challenges@.len(),
            i != j,
        ensures
            self.challenges@[i].id@ != self.challenges@[j].id@,
    {
        if i < j {
            assert(ch_disjoint(self.challenges@[i], self.challenges@[j]));
        } else {
            assert(ch_disjoint(self.challenges@[j], self.challenges@[i]));
        }
    }

    /// All record ids are pairwise distinct. Implied by the full invariant,
    /// but meaningful on its own: a lookup stays well defined even when a
    /// record's balances were tampered with out of band.
    pub open spec fn ids_unique(self) -> bool {
        forall|i: int, j: int|
            0 <= i < j < self.challenges@.len() ==> (#[trigger] self.challenges@[i]).id@ != (
            #[trigger] self.challenges@[j]).id@
    }

    /// The full invariant keeps every id distinct.
    pub proof fn lemma_wf_implies_ids_unique(self)
        requires
            self.wf(),
        ensures
            self.ids_unique(),
    {
        assert forall|i: int, j: int|
            0 <= i < j < self.challenges@.len() implies (#[trigger] self.challenges@[i]).id@ != (
        #[trigger] self.challenges@[j]).id@ by {
            self.lemma_unique_ids(i, j);
        }
    }

    /// Under id uniqueness, an index holding the id is the index `idx_of`
    /// picks, so `challenge_of` is the record at that index.
    pub proof fn lemma_idx_of_unique(self, id: Seq<u8>, i: int)
        requires
            self.ids_unique(),
            0 <= i < self.challenges@.len(),
            self.challenges@[i].id@ == id,
        ensures
            self.has_challenge(id),
            self.idx_of(id) == i,
            self.challenge_of(id) == self.challenges@[i],
    {
        assert(self.has_challenge(id));
        let k = self.idx_of(id);
        if k < i {
            assert(self.challenges@[k].id@ != self.challenges@[i].id@);
        } else if k > i {
            assert(self.challenges@[i].id@ != self.challenges@[k].id@);
        }
    }

    /// Under the invariant, an index holding the id is the index `idx_of`
    /// picks, so `challenge_of` is the record at that index.
    pub proof fn lemma_idx_of(self, id: Seq<u8>, i: int)
        requires
            self.wf(),
            0 <= i < self.challenges@.len(),
            self.challenges@[i].id@ == id,
        ensures
            self.has_challenge(id),
            self.idx_of(id) == i,
            self.challenge_of(id) == self.challenges@[i],
    {
        self.lemma_wf_implies_ids_unique();
        self.lemma_idx_of_unique(id, i);
    }

    /// A fresh escrow under a program identity: no challenges yet.
    pub fn new(program_id: Address) -> (e: Escrow)
        ensures
            e.program_id == program_id,
            e.challenges@.len() == 0,
            e.wf(),
    {
        Escrow { program_id, challenges: Vec::new() }
    }

    fn find_challenge(&self, id: &Address) -> (r: Option<usize>)
        ensures
            (r matches Some(i) ==> i < self.challenges@.len() && self.challenges@[i as int].id@
                == id@),
            r is None ==> !self.has_challenge(id@),
    {
        let mut i: usize = 0;
        while i < self.challenges.len()
            invariant
                0 <= i <= self.challenges@.len(),
                forall|j: int| 0 <= j < i ==> (#[trigger] self.challenges@[j]).id@ != id@,
            decreases self.challenges@.len() - i,
        {
            if addr_eq(&self.challenges[i].id, id) {
                return Some(i);
            }
            i = i + 1;
        }
        None
    }

    fn address_in_use(&self, a: &Address) -> (r: bool)
        ensures
            r == self.addr_used(a@),
    {
        let mut i: usize = 0;
        while i < self.challenges.len()
            invariant
                0 <= i <= self.challenges@.len(),
                forall|j: int| 0 <= j < i ==> !uses_addr(#[trigger] self.challenges@[j], a@),
            decreases self.challenges@.len() - i,
        {
            let c = &self.challenges[i];
            if addr_eq(&c.id, a) || addr_eq(&c.initiator_vault.address, a) {
                proof {
                    assert(uses_addr(self.challenges@[i as int], a@));
                }
                return true;
            }
            match &c.acceptor_side {
                Some(s) => {
                    if addr_eq(&s.vault.address, a) {
                        proof {
                            assert(uses_addr(self.challenges@[i as int], a@));
                        }
                        return true;
                    }
                },
                None => {},
            }
            i = i + 1;
        }
        false
    }

    /// Looks a challenge up by id; `None` stands for not-found. Under the
    /// invariant the result is the unique record `challenge_of` denotes.
    pub fn get_challenge(&self, id: &Address) -> (r: Option<&Challenge>)
        ensures
            (r matches Some(c) ==> self.has_challenge(id@) && c.id@ == id@ && (self.wf()
                ==> *c == self.challenge_of(id@))),
            r is None ==> !self.has_challenge(id@),
    {
        match self.find_challenge(id) {
            Some(i) => {
                let c = &self.challenges[i];
                proof {
                    if self.wf() {
                        self.lemma_idx_of(id@, i as int);
                    }
                }
                Some(c)
            },
            None => None,
        }
    }

    /// When creating a challenge goes through: a positive stake, both
    /// derivations succeed, the derived addresses are fresh and distinct,
    /// and the initiator's source account matches the asset and covers the
    /// stake.
    pub open spec fn create_ok(
        self,
        initiator: Seq<u8>,
        asset: Seq<u8>,
        amount: u64,
        src: Account,
    ) -> bool {
        &&& amount > 0
        &&& (derived(self.program_id@, challenge_seed_view(initiator)) matches Some(idp)
            && (derived(self.program_id@, vault_seed_view(Role::Initiator, idp.0)) matches Some(
            vp,
        ) && {
            &&& !self.addr_used(idp.0)
            &&& !self.addr_used(vp.0)
            &&& vp.0 != idp.0
        }))
        &&& src.asset_type@ == asset
        &&& src.balance >= amount
    }

    /// The exact error a failed creation reports, by the order the checks
    /// run.
    pub open spec fn create_err(
        self,
        initiator: Seq<u8>,
        asset: Seq<u8>,
        amount: u64,
        src: Account,
    ) -> Error {
        if amount == 0 {
            Error::InvalidAmount
        } else if derived(self.program_id@, challenge_seed_view(initiator)) is None {
            Error::InvalidSeed
        } else if derived(
            self.program_id@,
            vault_seed_view(
                Role::Initiator,
                (derived(self.program_id@, challenge_seed_view(initiator))->0).0,
            ),
        ) is None {
            Error::InvalidSeed
        } else {
            let idp = derived(self.program_id@, challenge_seed_view(initiator))->0;
            let vp = derived(self.program_id@, vault_seed_view(Role::Initiator, idp.0))->0;
            if self.addr_used(idp.0) || self.addr_used(vp.0) || vp.0 == idp.0 {
                Error::VaultAlreadyExists
            } else if src.asset_type@ != asset {
                Error::AssetTypeMismatch
            } else {
                Error::InsufficientBalance
            }
        }
    }

    /// Creates a challenge: derives the record's address and the initiator's
    /// vault address, allocates the vault and funds it from `source`, all in
    /// one atomic step — on any failure nothing changes. Returns the new
    /// challenge's id.
    pub fn create_challenge(
        &mut self,
        initiator: &Address,
        asset_type: &Address,
        amount: u64,
        source: &mut Account,
    ) -> (r: Result<Address, Error>)
        requires
            old(self).wf(),
        ensures
            final(self).program_id == old(self).program_id,
            r is Ok <==> old(self).create_ok(initiator@, asset_type@, amount, *old(source)),
            (r matches Err(e) ==> e == old(self).create_err(initiator@, asset_type@, amount, *old(
                source,
            )) && *final(self) == *old(self) && *final(source) == *old(source)),
            (r matches Ok(id) ==> ({
                let c = final(self).challenges@.last();
                &&& derived(old(self).program_id@, challenge_seed_view(initiator@)) == Some(
                    (id@, c.authority_bump),
                )
                &&& final(self).challenges@.len() == old(self).challenges@.len() + 1
                &&& final(self).challenges@.subrange(0, old(self).challenges@.len() as int) == old(
                    self,
                ).challenges@
                &&& c.id == id
                &&& c.initiator == *initiator
                &&& c.initiator_asset_type == *asset_type
                &&& c.initiator_wager_amount == amount
                &&& c.acceptor_side is None
                &&& c.status == Status::Created
                &&& c.initiator_vault.asset_type == *asset_type
                &&& c.initiator_vault.authority == id
                &&& c.initiator_vault.balance == amount
                &&& !c.initiator_vault.closed
                &&& (derived(old(self).program_id@, vault_seed_view(Role::Initiator, id@))
                    matches Some(vp) && vp.0 == c.initiator_vault.address@)
                &&& *final(source) == (Account {
                    balance: (old(source).balance - amount) as u64,
                    ..*old(source)
                })
                &&& final(self).has_challenge(id@)
                &&& final(self).challenge_of(id@) == c
                &&& final(self).wf()
            })),
    {
        if amount == 0 {
            return Err(Error::InvalidAmount);
        }
        let seed_parts = challenge_seeds(initiator);
        proof {
            assert(!crate::authority::seeds_malformed(seed_parts.deep_view()));
        }
        let (id, bump) = match derive_authority(&self.program_id, &seed_parts) {
            Ok(p) => {
                let bump = p.1.bump();
                (p.0, bump)
            },
            Err(_) => {
                return Err(Error::InvalidSeed);
            },
        };
        let vault_addr = match derive_vault_address(&self.program_id, Role::Initiator, &id) {
            Ok(a) => a,
            Err(_) => {
                return Err(Error::InvalidSeed);
            },
        };
        if self.address_in_use(&id) || self.address_in_use(&vault_addr) || addr_eq(
            &vault_addr,
            &id,
        ) {
            return Err(Error::VaultAlreadyExists);
        }
        let mut vault = Vault::new(vault_addr, *asset_type, id);
        match vault.fund(source, amount) {
            Ok(()) => {},
            Err(e) => {
                return Err(e);
            },
        }
        let record = Challenge {
            id,
            authority_bump: bump,
            initiator: *initiator,
            initiator_asset_type: *asset_type,
            initiator_vault: vault,
            initiator_wager_amount: amount,
            acceptor_side: None,
            status: Status::Created,
        };
        let ghost pre = *self;
        self.challenges.push(record);
        proof {
            assert(self.challenges@.subrange(0, pre.challenges@.len() as int) =~= pre.challenges@);
            let n = pre.challenges@.len() as int;
            assert forall|i: int| 0 <= i < self.challenges@.len() implies ch_wf(
                #[trigger] self.challenges@[i],
                self.program_id@,
            ) by {
                if i < n {
                    assert(ch_wf(pre.challenges@[i], pre.program_id@));
                }
            }
            assert forall|i: int, j: int| 0 <= i < j < self.challenges@.len() implies ch_disjoint(
                #[trigger] self.challenges@[i],
                #[trigger] self.challenges@[j],
            ) by {
                if j < n {
                    assert(ch_disjoint(pre.challenges@[i], pre.challenges@[j]));
                } else {
                    assert(!uses_addr(pre.challenges@[i], record.id@));
                    assert(!uses_addr(pre.challenges@[i], record.initiator_vault.address@));
                    assert(ch_disjoint(self.challenges@[i], record));
                }
            }
            self.lemma_idx_of(id@, n);
        }
        Ok(id)
    }

    /// When accepting goes through: the challenge still stands open, the
    /// stake is positive, the acceptor's vault address derives and is fresh,
    /// and the acceptor's source account matches the asset and covers the
    /// stake.
    pub open spec fn accept_ok(self, id: Seq<u8>, asset: Seq<u8>, amount: u64, src: Account) -> bool {
        let c = self.challenge_of(id);
        &&& c.status == Status::Created
        &&& amount > 0
        &&& (derived(self.program_id@, vault_seed_view(Role::Acceptor, id)) matches Some(vp)
            && !self.addr_used(vp.0))
        &&& src.asset_type@ == asset
        &&& src.balance >= amount
    }

    /// The exact error a failed acceptance reports, by the order the checks
    /// run. The very first check is the one-time guard: a challenge that is
    /// no longer `Created` reports `ChallengeAlreadyAccepted`.
    pub open spec fn accept_err(self, id: Seq<u8>, asset: Seq<u8>, amount: u64, src: Account) -> Error {
        let c = self.challenge_of(id);
        if c.status != Status::Created {
            Error::ChallengeAlreadyAccepted
        } else if amount == 0 {
            Error::InvalidAmount
        } else if derived(self.program_id@, vault_seed_view(Role::Acceptor, id)) is None {
            Error::InvalidSeed
        } else if self.addr_used(
            (derived(self.program_id@, vault_seed_view(Role::Acceptor, id))->0).0,
        ) {
            Error::VaultAlreadyExists
        } else if src.asset_type@ != asset {
            Error::AssetTypeMismatch
        } else {
            Error::InsufficientBalance
        }
    }

    /// Accepts an open challenge: records the acceptor's half, allocates the
    /// acceptor's vault and funds it from `source`, and advances the status
    /// to `Accepted`, all in one atomic step — on any failure nothing
    /// changes. A second acceptance attempt always fails with
    /// `ChallengeAlreadyAccepted`.
    pub fn accept_challenge(
        &mut self,
        id: &Address,
        acceptor: &Address,
        asset_type: &Address,
        amount: u64,
        source: &mut Account,
    ) -> (r: Result<(), Error>)
        requires
            old(self).wf(),
            old(self).has_challenge(id@),
        ensures
            final(self).program_id == old(self).program_id,
            r is Ok <==> old(self).accept_ok(id@, asset_type@, amount, *old(source)),
            (r matches Err(e) ==> e == old(self).accept_err(id@, asset_type@, amount, *old(source))
                && *final(self) == *old(self) && *final(source) == *old(source)),
            (r is Ok ==> ({
                let pre_c = old(self).challenge_of(id@);
                let c = final(self).challenge_of(id@);
                &&& final(self).challenges@ == old(self).challenges@.update(
                    old(self).idx_of(id@),
                    c,
                )
                &&& c.status == Status::Accepted
                &&& c.id == pre_c.id
                &&& c.authority_bump == pre_c.authority_bump
                &&& c.initiator == pre_c.initiator
                &&& c.initiator_asset_type == pre_c.initiator_asset_type
                &&& c.initiator_vault == pre_c.initiator_vault
                &&& c.initiator_wager_amount == pre_c.initiator_wager_amount
                &&& (c.acceptor_side matches Some(s) && {
                    &&& s.acceptor == *acceptor
                    &&& s.asset_type == *asset_type
                    &&& s.wager_amount == amount
                    &&& s.vault.asset_type == *asset_type
                    &&& s.vault.authority == c.id
                    &&& s.vault.balance == amount
                    &&& !s.vault.closed
                    &&& (derived(old(self).program_id@, vault_seed_view(Role::Acceptor, id@))
                        matches Some(vp) && vp.0 == s.vault.address@)
                })
                &&& *final(source) == (Account {
                    balance: (old(source).balance - amount) as u64,
                    ..*old(source)
                })
                &&& final(self).has_challenge(id@)
                &&& final(self).wf()
            })),
    {
        let idx = match self.find_challenge(id) {
            Some(i) => i,
            None => {
                proof {
                    assert(false);
                }
                return Err(Error::InvalidSeed);
            },
        };
        proof {
            self.lemma_idx_of(id@, idx as int);
        }
        let c = self.challenges[idx];
        match c.status {
            Status::Created => {},
            _ => {
                return Err(Error::ChallengeAlreadyAccepted);
            },
        }
        if amount == 0 {
            return Err(Error::InvalidAmount);
        }
        let vault_addr = match derive_vault_address(&self.program_id, Role::Acceptor, id) {
            Ok(a) => a,
            Err(_) => {
                return Err(Error::InvalidSeed);
            },
        };
        if self.address_in_use(&vault_addr) {
            return Err(Error::VaultAlreadyExists);
        }
        let mut vault = Vault::new(vault_addr, *asset_type, c.id);
        match vault.fund(source, amount) {
            Ok(()) => {},
            Err(e) => {
                return Err(e);
            },
        }
        let c2 = Challenge {
            acceptor_side: Some(
                AcceptorSide {
                    acceptor: *acceptor,
                    asset_type: *asset_type,
                    vault,
                    wager_amount: amount,
                },
            ),
            status: Status::Accepted,
            ..c
        };
        let ghost pre = *self;
        self.challenges[idx] = c2;
        proof {
            let n = pre.challenges@.len() as int;
            let k = idx as int;
            assert(uses_addr(pre.challenges@[k], pre.challenges@[k].id@));
            assert(c2.id@ == id@);
            assert(ch_wf(pre.challenges@[k], pre.program_id@));
            assert(ch_wf(c2, self.program_id@));
            assert forall|i: int| 0 <= i < self.challenges@.len() implies ch_wf(
                #[trigger] self.challenges@[i],
                self.program_id@,
            ) by {
                if i != k {
                    assert(ch_wf(pre.challenges@[i], pre.program_id@));
                }
            }
            assert forall|i: int, j: int| 0 <= i < j < self.challenges@.len() implies ch_disjoint(
                #[trigger] self.challenges@[i],
                #[trigger] self.challenges@[j],
            ) by {
                assert(ch_disjoint(pre.challenges@[i], pre.challenges@[j]));
                if i == k {
                    assert(!uses_addr(pre.challenges@[j], vault_addr@));
                }
                if j == k {
                    assert(!uses_addr(pre.challenges@[i], vault_addr@));
                }
            }
            self.lemma_idx_of(id@, k);
            assert(self.challenges@ =~= pre.challenges@.update(k, c2));
        }
        Ok(())
    }

    /// When resolution goes through: the challenge stands `Accepted`, both
    /// vaults hold exactly the declared wagers, and the winner's account
    /// list offers an account for each staked asset type.
    pub open spec fn resolve_ok(self, id: Seq<u8>, w: Seq<Account>) -> bool {
        let c = self.challenge_of(id);
        &&& c.status == Status::Accepted
        &&& vaults_funded(c)
        &&& (c.acceptor_side matches Some(s) && first_match(w, c.initiator_vault.asset_type@) >= 0
            && first_match(w, s.vault.asset_type@) >= 0)
    }

    /// The exact error a failed resolution reports, by the order the checks
    /// run.
    pub open spec fn resolve_err(self, id: Seq<u8>, w: Seq<Account>) -> Error {
        let c = self.challenge_of(id);
        if c.status == Status::Created {
            Error::NotYetAccepted
        } else if c.status == Status::Resolved {
            Error::AlreadyResolved
        } else if !vaults_funded(c) {
            Error::VaultBalanceMismatch
        } else {
            Error::AssetTypeMismatch
        }
    }

    /// Resolves an accepted challenge: re-derives the signing capability
    /// from the record's seed material, drains both vaults into the winning
    /// party's accounts (each stake into that party's first account of the
    /// matching asset type), closes both vaults and advances the status to
    /// `Resolved` — all atomic, on any failure nothing changes; a resolved
    /// challenge reports `AlreadyResolved` ever after. Only id uniqueness is
    /// demanded of the store, so the contract also covers a record tampered
    /// with out of band: an `Accepted` record whose vault balances disagree
    /// with the declared wagers is refused with `VaultBalanceMismatch` and
    /// the state is left exactly as found, so a corrected retry stays
    /// possible.
    pub fn resolve_challenge(
        &mut self,
        id: &Address,
        outcome: Outcome,
        initiator_accounts: &mut Vec<Account>,
        acceptor_accounts: &mut Vec<Account>,
    ) -> (r: Result<(), Error>)
        requires
            old(self).ids_unique(),
            old(self).has_challenge(id@),
            (old(self).challenge_of(id@).acceptor_side matches Some(s) ==> (forall|k: int|
                0 <= k < winner_of(
                    outcome,
                    old(initiator_accounts)@,
                    old(acceptor_accounts)@,
                ).len() ==> (#[trigger] winner_of(
                    outcome,
                    old(initiator_accounts)@,
                    old(acceptor_accounts)@,
                )[k]).balance + old(self).challenge_of(id@).initiator_wager_amount + s.wager_amount
                    <= u64::MAX)),
        ensures
            final(self).program_id == old(self).program_id,
            r is Ok ==> old(self).resolve_ok(
                id@,
                winner_of(outcome, old(initiator_accounts)@, old(acceptor_accounts)@),
            ),
            (old(self).wf() ==> (r is Ok <==> old(self).resolve_ok(
                id@,
                winner_of(outcome, old(initiator_accounts)@, old(acceptor_accounts)@),
            ))),
            (r is Err ==> *final(self) == *old(self) && final(initiator_accounts)@ == old(
                initiator_accounts,
            )@ && final(acceptor_accounts)@ == old(acceptor_accounts)@),
            old(self).challenge_of(id@).status == Status::Created ==> r == Err::<(), Error>(
                Error::NotYetAccepted,
            ),
            old(self).challenge_of(id@).status == Status::Resolved ==> r == Err::<(), Error>(
                Error::AlreadyResolved,
            ),
            (old(self).challenge_of(id@).status == Status::Accepted && !vaults_funded(
                old(self).challenge_of(id@),
            ) ==> r == Err::<(), Error>(Error::VaultBalanceMismatch)),
            (old(self).wf() ==> (r matches Err(e) ==> e == old(self).resolve_err(
                id@,
                winner_of(outcome, old(initiator_accounts)@, old(acceptor_accounts)@),
            ))),
            (r is Ok ==> ({
                let c0 = old(self).challenge_of(id@);
                let s0 = c0.acceptor_side->0;
                let w0 = winner_of(outcome, old(initiator_accounts)@, old(acceptor_accounts)@);
                let w2 = credit(
                    credit(w0, c0.initiator_vault.asset_type@, c0.initiator_wager_amount),
                    s0.vault.asset_type@,
                    s0.wager_amount,
                );
                &&& (outcome == Outcome::InitiatorWins ==> final(initiator_accounts)@ == w2
                    && final(acceptor_accounts)@ == old(acceptor_accounts)@)
                &&& (outcome == Outcome::AcceptorWins ==> final(acceptor_accounts)@ == w2
                    && final(initiator_accounts)@ == old(initiator_accounts)@)
                &&& ({
                    let c = final(self).challenge_of(id@);
                    &&& final(self).challenges@ == old(self).challenges@.update(
                        old(self).idx_of(id@),
                        c,
                    )
                    &&& c.status == Status::Resolved
                    &&& c.id == c0.id
                    &&& c.authority_bump == c0.authority_bump
                    &&& c.initiator == c0.initiator
                    &&& c.initiator_asset_type == c0.initiator_asset_type
                    &&& c.initiator_wager_amount == c0.initiator_wager_amount
                    &&& c.initiator_vault == (Vault {
                        balance: 0,
                        closed: true,
                        ..c0.initiator_vault
                    })
                    &&& (c.acceptor_side matches Some(s) && s.acceptor == s0.acceptor
                        && s.asset_type == s0.asset_type && s.wager_amount == s0.wager_amount
                        && s.vault == (Vault { balance: 0, closed: true, ..s0.vault }))
                    &&& final(self).has_challenge(id@)
                    &&& final(self).ids_unique()
                    &&& (old(self).wf() ==> final(self).wf())
                })
            })),
    {
        let idx = match self.find_challenge(id) {
            Some(i) => i,
            None => {
                proof {
                    assert(false);
                }
                return Err(Error::InvalidSeed);
            },
        };
        proof {
            self.lemma_idx_of_unique(id@, idx as int);
        }
        let c = self.challenges[idx];
        match c.status {
            Status::Created => {
                return Err(Error::NotYetAccepted);
            },
            Status::Resolved => {
                return Err(Error::AlreadyResolved);
            },
            Status::Accepted => {},
        }
        let side = match c.acceptor_side {
            Some(s) => s,
            None => {
                return Err(Error::VaultBalanceMismatch);
            },
        };
        if c.initiator_vault.closed || side.vault.closed || c.initiator_vault.balance
            != c.initiator_wager_amount || side.vault.balance != side.wager_amount {
            return Err(Error::VaultBalanceMismatch);
        }
        let seed_parts = challenge_seeds(&c.initiator);
        proof {
            assert(!crate::authority::seeds_malformed(seed_parts.deep_view()));
        }
        let cap = match derive_authority(&self.program_id, &seed_parts) {
            Ok(p) => p.1,
            Err(_) => {
                proof {
                    if old(self).wf() {
                        assert(ch_wf(self.challenges@[idx as int], self.program_id@));
                        assert(false);
                    }
                }
                return Err(Error::InvalidSeed);
            },
        };
        if !cap.authorizes(&c.initiator_vault.authority) || !cap.authorizes(
            &side.vault.authority,
        ) {
            proof {
                if old(self).wf() {
                    assert(ch_wf(self.challenges@[idx as int], self.program_id@));
                    assert(false);
                }
            }
            return Err(Error::Unauthorized);
        }
        let mut iv = c.initiator_vault;
        let mut av = side.vault;
        let pay = match outcome {
            Outcome::InitiatorWins => execute_payouts(initiator_accounts, &cap, &mut iv, &mut av),
            Outcome::AcceptorWins => execute_payouts(acceptor_accounts, &cap, &mut iv, &mut av),
        };
        match pay {
            Ok(()) => {},
            Err(e) => {
                return Err(e);
            },
        }
        let c2 = Challenge {
            initiator_vault: iv,
            acceptor_side: Some(AcceptorSide { vault: av, ..side }),
            status: Status::Resolved,
            ..c
        };
        let ghost pre = *self;
        self.challenges[idx] = c2;
        proof {
            let k = idx as int;
            assert(self.challenges@ =~= pre.challenges@.update(k, c2));
            assert(c2.id == pre.challenges@[k].id);
            assert forall|i: int, j: int|
                0 <= i < j < self.challenges@.len() implies (#[trigger] self.challenges@[i]).id@
                != (#[trigger] self.challenges@[j]).id@ by {
                assert(pre.challenges@[i].id@ != pre.challenges@[j].id@);
            }
            self.lemma_idx_of_unique(id@, k);
            if pre.wf() {
                assert(ch_wf(pre.challenges@[k], pre.program_id@));
                assert(ch_wf(c2, self.program_id@));
                assert forall|i: int| 0 <= i < self.challenges@.len() implies ch_wf(
                    #[trigger] self.challenges@[i],
                    self.program_id@,
                ) by {
                    if i != k {
                        assert(ch_wf(pre.challenges@[i], pre.program_id@));
                    }
                }
                assert forall|i: int, j: int|
                    0 <= i < j < self.challenges@.len() implies ch_disjoint(
                    #[trigger] self.challenges@[i],
                    #[trigger] self.challenges@[j],
                ) by {
                    assert(ch_disjoint(pre.challenges@[i], pre.challenges@[j]));
                    assert(c2.initiator_vault.address
                        == pre.challenges@[k].initiator_vault.address);
                }
            }
        }
        Ok(())
    }
}

/// Which party's accounts receive the pool: the winner's, per the outcome.
pub open spec fn winner_of(
    outcome: Outcome,
    initiator_accounts: Seq<Account>,
    acceptor_accounts: Seq<Account>,
) -> Seq<Account> {
    if outcome == Outcome::InitiatorWins {
        initiator_accounts
    } else {
        acceptor_accounts
    }
}

/// The decided outcome of a wager, as the pluggable decision source reports
/// it; resolution takes it as given and only moves the funds accordingly.
#[derive(Clone, Copy, Debug, PartialEq, Eq, Structural)]
pub enum Outcome {
    InitiatorWins,
    AcceptorWins,
}

/// When a full wager session goes through: both stakes are positive, and
/// the three address derivations — challenge record, initiator vault,
/// acceptor vault — succeed and yield pairwise distinct addresses.
/// Everything else a fresh session needs holds by construction.
pub open spec fn session_ok(
    program: Seq<u8>,
    initiator: Seq<u8>,
    initiator_stake: u64,
    acceptor_stake: u64,
) -> bool {
    &&& initiator_stake > 0
    &&& acceptor_stake > 0
    &&& (derived(program, challenge_seed_view(initiator)) matches Some(idp) && (derived(
        program,
        vault_seed_view(Role::Initiator, idp.0),
    ) matches Some(vp) && (derived(program, vault_seed_view(Role::Acceptor, idp.0)) matches Some(
        ap,
    ) && vp.0 != idp.0 && ap.0 != idp.0 && ap.0 != vp.0)))
}

/// Plays one wager end to end from plain values: a fresh escrow under the
/// given program identity, creation and funding by the initiator, acceptance
/// and funding by the acceptor, then resolution per the given outcome, each
/// party paying out of an account holding exactly its stake. Returns the two
/// parties' final payout-account totals: whenever the session completes, the
/// winner leaves with the whole pool and the loser with nothing. It
/// completes exactly when both stakes are positive and the three address
/// derivations succeed with pairwise distinct addresses (`session_ok`).
pub fn run_two_party_wager(
    program_id: &Address,
    initiator: &Address,
    acceptor: &Address,
    initiator_asset: &Address,
    acceptor_asset: &Address,
    initiator_stake: u64,
    acceptor_stake: u64,
    outcome: Outcome,
) -> (r: Result<(u64, u64), Error>)
    requires
        initiator_stake + acceptor_stake <= u64::MAX,
    ensures
        (r matches Ok(p) ==> {
            &&& p.0 + p.1 == initiator_stake + acceptor_stake
            &&& (outcome == Outcome::InitiatorWins ==> p.0 == initiator_stake + acceptor_stake
                && p.1 == 0)
            &&& (outcome == Outcome::AcceptorWins ==> p.1 == initiator_stake + acceptor_stake
                && p.0 == 0)
        }),
        (r matches Err(e) ==> e == Error::InvalidAmount || e == Error::InvalidSeed || e
            == Error::VaultAlreadyExists),
        initiator_stake == 0 ==> r == Err::<(u64, u64), Error>(Error::InvalidAmount),
        r is Ok <==> session_ok(program_id@, initiator@, initiator_stake, acceptor_stake),
{
    let mut escrow = Escrow::new(*program_id);
    let mut init_source = Account {
        address: *initiator,
        asset_type: *initiator_asset,
        balance: initiator_stake,
    };
    let ghost e0 = escrow;
    let id = match escrow.create_challenge(
        initiator,
        initiator_asset,
        initiator_stake,
        &mut init_source,
    ) {
        Ok(id) => id,
        Err(e) => {
            proof {
                if session_ok(program_id@, initiator@, initiator_stake, acceptor_stake) {
                    let idp = derived(program_id@, challenge_seed_view(initiator@))->0;
                    let vp = derived(program_id@, vault_seed_view(Role::Initiator, idp.0))->0;
                    assert(!e0.addr_used(idp.0));
                    assert(!e0.addr_used(vp.0));
                    assert(e0.create_ok(
                        initiator@,
                        initiator_asset@,
                        initiator_stake,
                        init_source,
                    ));
                    assert(false);
                }
            }
            return Err(e);
        },
    };
    proof {
        crate::laws::lemma_create_then_get(escrow, id, initiator_stake);
        let vp = derived(escrow.program_id@, vault_seed_view(Role::Initiator, id@))->0;
        crate::laws::lemma_vault_derivation_deterministic(
            escrow.program_id@,
            id@,
            Role::Initiator,
            vp.0,
            vp.0,
        );
    }
    let mut acc_source = Account {
        address: *acceptor,
        asset_type: *acceptor_asset,
        balance: acceptor_stake,
    };
    let ghost e1 = escrow;
    match escrow.accept_challenge(&id, acceptor, acceptor_asset, acceptor_stake, &mut acc_source) {
        Ok(()) => {},
        Err(e) => {
            proof {
                if session_ok(program_id@, initiator@, initiator_stake, acceptor_stake) {
                    let idp = derived(program_id@, challenge_seed_view(initiator@))->0;
                    let vp = derived(program_id@, vault_seed_view(Role::Initiator, idp.0))->0;
                    let ap = derived(program_id@, vault_seed_view(Role::Acceptor, idp.0))->0;
                    assert(idp.0 == id@);
                    assert forall|i: int| 0 <= i < e1.challenges@.len() implies !uses_addr(
                        #[trigger] e1.challenges@[i],
                        ap.0,
                    ) by {
                        assert(e1.challenges@[i] == e1.challenges@.last());
                    }
                    assert(!e1.addr_used(ap.0));
                    assert(e1.accept_ok(id@, acceptor_asset@, acceptor_stake, acc_source));
                    assert(false);
                }
            }
            return Err(e);
        },
    }
    proof {
        let idp = derived(program_id@, challenge_seed_view(initiator@))->0;
        let vp = derived(program_id@, vault_seed_view(Role::Initiator, idp.0))->0;
        let ap = derived(program_id@, vault_seed_view(Role::Acceptor, idp.0))->0;
        assert(idp.0 == id@);
        assert(e1.challenges@[0] == e1.challenges@.last());
        if ap.0 == idp.0 || ap.0 == vp.0 {
            assert(uses_addr(e1.challenges@[0], ap.0));
            assert(e1.addr_used(ap.0));
            assert(false);
        }
        assert(session_ok(program_id@, initiator@, initiator_stake, acceptor_stake));
    }
    let mut initiator_accounts: Vec<Account> = Vec::new();
    initiator_accounts.push(
        Account { address: *initiator, asset_type: *initiator_asset, balance: 0 },
    );
    initiator_accounts.push(
        Account { address: *initiator, asset_type: *acceptor_asset, balance: 0 },
    );
    let mut acceptor_accounts: Vec<Account> = Vec::new();
    acceptor_accounts.push(Account { address: *acceptor, asset_type: *initiator_asset, balance: 0 });
    acceptor_accounts.push(Account { address: *acceptor, asset_type: *acceptor_asset, balance: 0 });
    let ghost w0i = initiator_accounts@;
    let ghost w0a = acceptor_accounts@;
    let ghost ia = initiator_asset@;
    let ghost aa = acceptor_asset@;
    let ghost e2 = escrow;
    proof {
        escrow.lemma_wf_implies_ids_unique();
        let c0 = e2.challenge_of(id@);
        let s0 = c0.acceptor_side->0;
        assert(c0.initiator_vault.asset_type@ == ia);
        assert(s0.vault.asset_type@ == aa);
        lemma_first_match(w0i, ia);
        lemma_first_match(w0i, aa);
        lemma_first_match(w0a, ia);
        lemma_first_match(w0a, aa);
        assert(w0i[0].asset_type@ == ia && w0i[1].asset_type@ == aa);
        assert(w0a[0].asset_type@ == ia && w0a[1].asset_type@ == aa);
    }
    match escrow.resolve_challenge(&id, outcome, &mut initiator_accounts, &mut acceptor_accounts) {
        Ok(()) => {},
        Err(e) => {
            proof {
                assert(false);
            }
            return Err(e);
        },
    }
    proof {
        let c0 = e2.challenge_of(id@);
        let s0 = c0.acceptor_side->0;
        assert(c0.initiator_vault.asset_type@ == ia);
        assert(s0.vault.asset_type@ == aa);
        assert(c0.initiator_wager_amount == initiator_stake);
        assert(s0.wager_amount == acceptor_stake);
        let w0 = winner_of(outcome, w0i, w0a);
        lemma_credit(w0, ia, initiator_stake);
        lemma_credit_keeps_assets(w0, ia, initiator_stake, aa);
        let w1 = credit(w0, ia, initiator_stake);
        lemma_credit(w1, aa, acceptor_stake);
        let w2 = credit(w1, aa, acceptor_stake);
        lemma_total_two(w0);
        lemma_total_two(w2);
        assert(balance_total(w0) == 0);
        assert(balance_total(w2) == initiator_stake + acceptor_stake);
        if outcome == Outcome::InitiatorWins {
            assert(initiator_accounts@[0].balance + initiator_accounts@[1].balance
                == initiator_stake + acceptor_stake);
            assert(acceptor_accounts@[0].balance + acceptor_accounts@[1].balance == 0);
        } else {
            assert(acceptor_accounts@[0].balance + acceptor_accounts@[1].balance
                == initiator_stake + acceptor_stake);
            assert(initiator_accounts@[0].balance + initiator_accounts@[1].balance == 0);
        }
    }
    let initiator_total = initiator_accounts[0].balance + initiator_accounts[1].balance;
    let acceptor_total = acceptor_accounts[0].balance + acceptor_accounts[1].balance;
    Ok((initiator_total, acceptor_total))
}

fn find_asset_account(accounts: &Vec<Account>, asset: &Address) -> (r: Option<usize>)
    ensures
        (r matches Some(i) ==> first_match(accounts@, asset@) == i),
        r is None ==> first_match(accounts@, asset@) == -1,
{
    let mut i: usize = 0;
    while i < accounts.len()
        invariant
            0 <= i <= accounts@.len(),
            forall|j: int| 0 <= j < i ==> (#[trigger] accounts@[j]).asset_type@ != asset@,
        decreases accounts@.len() - i,
    {
        if addr_eq(&accounts[i].asset_type, asset) {
            proof {
                lemma_first_match(accounts@, asset@);
            }
            return Some(i);
        }
        i = i + 1;
    }
    proof {
        lemma_first_match(accounts@, asset@);
    }
    None
}

/// Drains both vaults into the winner's accounts — each stake into the first
/// account of its asset type — then closes both vaults. Runs only under the
/// capability that signs for both vaults; fails, before anything moves, only
/// when an asset type has no matching destination.
fn execute_payouts(
    winner: &mut Vec<Account>,
    cap: &Capability,
    iv: &mut Vault,
    av: &mut Vault,
) -> (r: Result<(), Error>)
    requires
        cap.auth() == old(iv).authority@,
        cap.auth() == old(av).authority@,
        !old(iv).closed,
        !old(av).closed,
        forall|k: int|
            0 <= k < old(winner)@.len() ==> (#[trigger] old(winner)@[k]).balance + old(iv).balance
                + old(av).balance <= u64::MAX,
    ensures
        (r is Ok <==> first_match(old(winner)@, old(iv).asset_type@) >= 0 && first_match(
            old(winner)@,
            old(av).asset_type@,
        ) >= 0),
        (r matches Err(e) ==> e == Error::AssetTypeMismatch && final(winner)@ == old(winner)@
            && *final(iv) == *old(iv) && *final(av) == *old(av)),
        (r is Ok ==> final(winner)@ == credit(
            credit(old(winner)@, old(iv).asset_type@, old(iv).balance),
            old(av).asset_type@,
            old(av).balance,
        ) && *final(iv) == (Vault { balance: 0, closed: true, ..*old(iv) }) && *final(av) == (Vault {
            balance: 0,
            closed: true,
            ..*old(av)
        })),
{
    let i1 = match find_asset_account(winner, &iv.asset_type) {
        Some(i) => i,
        None => {
            return Err(Error::AssetTypeMismatch);
        },
    };
    let i2 = match find_asset_account(winner, &av.asset_type) {
        Some(i) => i,
        None => {
            return Err(Error::AssetTypeMismatch);
        },
    };
    proof {
        lemma_first_match(winner@, iv.asset_type@);
        lemma_first_match(winner@, av.asset_type@);
    }
    let ghost w0 = winner@;
    let amt1 = iv.balance;
    let mut d1 = winner[i1];
    match iv.payout(cap, &mut d1, amt1) {
        Ok(()) => {},
        Err(_) => {
            proof {
                assert(false);
            }
            return Err(Error::AssetTypeMismatch);
        },
    }
    winner.set(i1, d1);
    proof {
        assert(winner@ =~= credit(w0, old(iv).asset_type@, amt1));
        lemma_credit(w0, old(iv).asset_type@, amt1);
        lemma_credit_keeps_assets(w0, old(iv).asset_type@, amt1, old(av).asset_type@);
    }
    let amt2 = av.balance;
    let mut d2 = winner[i2];
    match av.payout(cap, &mut d2, amt2) {
        Ok(()) => {},
        Err(_) => {
            proof {
                assert(false);
            }
            return Err(Error::AssetTypeMismatch);
        },
    }
    winner.set(i2, d2);
    proof {
        assert(winner@ =~= credit(
            credit(w0, old(iv).asset_type@, amt1),
            old(av).asset_type@,
            amt2,
        ));
    }
    match iv.close(cap) {
        Ok(()) => {},
        Err(_) => {
            proof {
                assert(false);
            }
            return Err(Error::AssetTypeMismatch);
        },
    }
    match av.close(cap) {
        Ok(()) => {},
        Err(_) => {
            proof {
                assert(false);
            }
            return Err(Error::AssetTypeMismatch);
        },
    }
    Ok(())
}

} // verus!
