use vstd::prelude::*;
use crate::address::{Address, Account, addr_eq};
use crate::authority::Capability;
use crate::errors::Error;

verus! {

/// A custody account for one party's stake: it holds exactly one asset type,
/// and the only party that may move funds out of it is the challenge record
/// acting through its derived authority — never a human key.
#[derive(Clone, Copy, Debug)]
pub struct Vault {
    /// The vault's deterministically derived address.
    pub address: Address,
    /// The asset type the vault custodies.
    pub asset_type: Address,
    /// The derived authority (the challenge record's address) that alone may
    /// authorize transfers out.
    pub authority: Address,
    /// The stake currently held.
    pub balance: u64,
    /// Set once the vault is drained and deallocated; a closed vault can
    /// neither be funded nor drained again.
    pub closed: bool,
}

impl Vault {
    /// Allocates a custody account at the given derived address: created
    /// empty and open, with its asset type and transfer authority recorded.
    pub fn new(address: Address, asset_type: Address, authority: Address) -> (v: Vault)
        ensures
            v.address == address,
            v.asset_type == asset_type,
            v.authority == authority,
            v.balance == 0,
            !v.closed,
    {
        Vault { address, asset_type, authority, balance: 0, closed: false }
    }

    /// The exact error a funding attempt reports, by the order the checks run.
    pub open spec fn fund_err(self, source: Account, amount: u64) -> Error {
        if self.closed || self.balance != 0 {
            Error::AlreadyFunded
        } else if amount == 0 {
            Error::InvalidAmount
        } else if source.asset_type@ != self.asset_type@ {
            Error::AssetTypeMismatch
        } else {
            Error::InsufficientBalance
        }
    }

    /// When a funding attempt goes through: the vault is open and still
    /// empty, the stake is positive, and the source holds enough of the
    /// vault's asset type.
    pub open spec fn fund_ok(self, source: Account, amount: u64) -> bool {
        &&& !self.closed
        &&& self.balance == 0
        &&& amount > 0
        &&& source.asset_type@ == self.asset_type@
        &&& source.balance >= amount
    }

    /// Moves `amount` of the vault's asset type from the owning party's
    /// source account into the vault. Funding is exactly-once: a vault that
    /// already holds a stake, or was closed, rejects it; so does a zero
    /// amount, a source of another asset type, or a source short of funds.
    /// On any failure neither the vault nor the source changes.
    pub fn fund(&mut self, source: &mut Account, amount: u64) -> (r: Result<(), Error>)
        ensures
            r is Ok <==> old(self).fund_ok(*old(source), amount),
            (r matches Err(e) ==> e == old(self).fund_err(*old(source), amount) && *final(self)
                == *old(self) && *final(source) == *old(source)),
            r is Ok ==> *final(self) == (Vault { balance: amount, ..*old(self) }) && *final(source)
                == (Account {
                balance: (old(source).balance - amount) as u64,
                ..*old(source)
            }),
    {
        if self.closed || self.balance != 0 {
            return Err(Error::AlreadyFunded);
        }
        if amount == 0 {
            return Err(Error::InvalidAmount);
        }
        if !addr_eq(&source.asset_type, &self.asset_type) {
            return Err(Error::AssetTypeMismatch);
        }
        if source.balance < amount {
            return Err(Error::InsufficientBalance);
        }
        source.balance = source.balance - amount;
        self.balance = amount;
        Ok(())
    }

    /// The exact error a payout attempt reports, by the order the checks run.
    pub open spec fn payout_err(self, cap: Capability, dest: Account, amount: u64) -> Error {
        if cap.auth() != self.authority@ {
            Error::Unauthorized
        } else if self.closed {
            Error::InsufficientVaultBalance
        } else if dest.asset_type@ != self.asset_type@ {
            Error::AssetTypeMismatch
        } else {
            Error::InsufficientVaultBalance
        }
    }

    /// When a payout goes through: the presented capability signs for the
    /// vault's authority, the vault is open, the destination holds the same
    /// asset type, and the vault holds at least the requested amount.
    pub open spec fn payout_ok(self, cap: Capability, dest: Account, amount: u64) -> bool {
        &&& cap.auth() == self.authority@
        &&& !self.closed
        &&& dest.asset_type@ == self.asset_type@
        &&& amount <= self.balance
    }

    /// Moves `amount` out of the vault to `dest`, no matter who calls it:
    /// authorization is carried entirely by the presented capability, which
    /// must sign for the vault's recorded authority. On any failure neither
    /// the vault nor the destination changes.
    pub fn payout(&mut self, cap: &Capability, dest: &mut Account, amount: u64) -> (r: Result<
        (),
        Error,
    >)
        requires
            old(dest).balance + amount <= u64::MAX,
        ensures
            r is Ok <==> old(self).payout_ok(*cap, *old(dest), amount),
            (r matches Err(e) ==> e == old(self).payout_err(*cap, *old(dest), amount)
                && *final(self) == *old(self) && *final(dest) == *old(dest)),
            r is Ok ==> *final(self) == (Vault {
                balance: (old(self).balance - amount) as u64,
                ..*old(self)
            }) && *final(dest) == (Account {
                balance: (old(dest).balance + amount) as u64,
                ..*old(dest)
            }),
    {
        if !cap.authorizes(&self.authority) {
            return Err(Error::Unauthorized);
        }
        if self.closed {
            return Err(Error::InsufficientVaultBalance);
        }
        if !addr_eq(&dest.asset_type, &self.asset_type) {
            return Err(Error::AssetTypeMismatch);
        }
        if amount > self.balance {
            return Err(Error::InsufficientVaultBalance);
        }
        self.balance = self.balance - amount;
        dest.balance = dest.balance + amount;
        Ok(())
    }

    /// Zeroes out and deallocates the vault. Only a drained vault closes;
    /// closing an already closed vault is harmless. The capability must sign
    /// for the vault's authority, as for a payout.
    pub fn close(&mut self, cap: &Capability) -> (r: Result<(), Error>)
        ensures
            r is Ok <==> cap.auth() == old(self).authority@ && old(self).balance == 0,
            (r matches Err(e) ==> *final(self) == *old(self) && e == (if cap.auth() != old(
                self,
            ).authority@ {
                Error::Unauthorized
            } else {
                Error::VaultNotEmpty
            })),
            r is Ok ==> *final(self) == (Vault { closed: true, ..*old(self) }),
    {
        if !cap.authorizes(&self.authority) {
            return Err(Error::Unauthorized);
        }
        if self.balance != 0 {
            return Err(Error::VaultNotEmpty);
        }
        self.closed = true;
        Ok(())
    }
}

} // verus!
