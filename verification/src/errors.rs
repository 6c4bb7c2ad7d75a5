use vstd::prelude::*;

verus! {

/// Every failure the escrow can report. Each operation's contract states
/// exactly which inputs produce which variant.
#[derive(Clone, Copy, Debug, PartialEq, Eq, Structural)]
pub enum Error {
    /// Seed material for address derivation is malformed or yields no address.
    InvalidSeed,
    /// The deterministic address is already allocated.
    VaultAlreadyExists,
    /// The source or destination account holds a different asset type.
    AssetTypeMismatch,
    /// The depositing party's account lacks the funds.
    InsufficientBalance,
    /// The vault already holds a stake; funding is exactly-once.
    AlreadyFunded,
    /// A payout asks for more than the vault holds.
    InsufficientVaultBalance,
    /// A vault can only be closed once it is drained.
    VaultNotEmpty,
    /// A wager amount must be positive.
    InvalidAmount,
    /// The challenge already has an acceptor.
    ChallengeAlreadyAccepted,
    /// Resolution requires an accepted challenge.
    NotYetAccepted,
    /// The challenge was already resolved; resolution is one-time.
    AlreadyResolved,
    /// A capability other than the vault's derived authority was presented.
    Unauthorized,
    /// A vault's recorded balance disagrees with the declared wager.
    VaultBalanceMismatch,
}

} // verus!
