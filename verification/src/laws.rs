use vstd::prelude::*;
use crate::address::{Address, Account};
use crate::authority::derived;
use crate::challenge::Status;
use crate::errors::Error;
use crate::escrow::Escrow;
use crate::payout::{
    balance_total, credit, first_match, lemma_credit, lemma_credit_keeps_assets, lemma_first_match,
};
use crate::seeds::{Role, vault_seed_view};

verus! {

/// Law: after a successful challenge creation, a lookup of the returned id
/// finds a record in `Created` status whose vault holds exactly the
/// deposited amount. The hypotheses are what `create_challenge` ensures of
/// its `Ok` return.
pub proof fn lemma_create_then_get(post: Escrow, id: Address, amount: u64)
    requires
        post.wf(),
        post.challenges@.len() > 0,
        post.challenges@.last().id == id,
        post.challenges@.last().status == Status::Created,
        post.challenges@.last().initiator_vault.balance == amount,
    ensures
        post.has_challenge(id@),
        post.challenge_of(id@).status == Status::Created,
        post.challenge_of(id@).initiator_vault.balance == amount,
{
    post.lemma_idx_of(id@, post.challenges@.len() - 1);
}

/// Law: once a challenge stands `Accepted`, any further acceptance attempt
/// fails with `ChallengeAlreadyAccepted`, whatever the acceptor offers —
/// and since a failed acceptance changes nothing, the recorded acceptor
/// stays the first caller's identity.
pub proof fn lemma_second_accept_rejected(
    e: Escrow,
    id: Seq<u8>,
    asset: Seq<u8>,
    amount: u64,
    src: Account,
)
    requires
        e.challenge_of(id).status == Status::Accepted,
    ensures
        !e.accept_ok(id, asset, amount, src),
        e.accept_err(id, asset, amount, src) == Error::ChallengeAlreadyAccepted,
{
}

/// Law: a completed resolution moves exactly the pooled stake — the two
/// wager amounts combined — into the winner's accounts: crediting each
/// stake to its matching account raises the accounts' combined balance by
/// precisely the pool, never more, never less.
pub proof fn lemma_resolution_conserves_value(
    w: Seq<Account>,
    initiator_asset: Seq<u8>,
    acceptor_asset: Seq<u8>,
    initiator_wager: u64,
    acceptor_wager: u64,
)
    requires
        first_match(w, initiator_asset) >= 0,
        first_match(w, acceptor_asset) >= 0,
        forall|k: int|
            0 <= k < w.len() ==> (#[trigger] w[k]).balance + initiator_wager + acceptor_wager
                <= u64::MAX,
    ensures
        balance_total(
            credit(credit(w, initiator_asset, initiator_wager), acceptor_asset, acceptor_wager),
        ) == balance_total(w) + initiator_wager + acceptor_wager,
{
    lemma_first_match(w, initiator_asset);
    lemma_credit(w, initiator_asset, initiator_wager);
    lemma_credit_keeps_assets(w, initiator_asset, initiator_wager, acceptor_asset);
    let w1 = credit(w, initiator_asset, initiator_wager);
    lemma_first_match(w1, acceptor_asset);
    lemma_credit(w1, acceptor_asset, acceptor_wager);
}

/// Law: resolving an already resolved challenge fails with
/// `AlreadyResolved` — and since a failed resolution changes nothing, no
/// transfer takes place.
pub proof fn lemma_second_resolve_rejected(e: Escrow, id: Seq<u8>, w: Seq<Account>)
    requires
        e.challenge_of(id).status == Status::Resolved,
    ensures
        !e.resolve_ok(id, w),
        e.resolve_err(id, w) == Error::AlreadyResolved,
{
}

/// Law: vault address derivation is a function of the program identity, the
/// challenge id and the role alone: any two derivations from the same
/// triple agree on the address.
pub proof fn lemma_vault_derivation_deterministic(
    program: Seq<u8>,
    id: Seq<u8>,
    role: Role,
    a1: Seq<u8>,
    a2: Seq<u8>,
)
    requires
        (derived(program, vault_seed_view(role, id)) matches Some(p) && p.0 == a1),
        (derived(program, vault_seed_view(role, id)) matches Some(q) && q.0 == a2),
    ensures
        a1 == a2,
{
}

} // verus!
