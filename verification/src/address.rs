use vstd::prelude::*;

verus! {

/// A 32-byte account address on the host ledger.
#[derive(Clone, Copy, Debug, PartialEq, Eq)]
pub struct Address {
    pub bytes: [u8; 32],
}

impl View for Address {
    type V = Seq<u8>;

    open spec fn view(&self) -> Seq<u8> {
        self.bytes@
    }
}

/// Byte-for-byte address comparison; the equality the contracts speak of.
pub fn addr_eq(a: &Address, b: &Address) -> (r: bool)
    ensures
        r == (a@ == b@),
{
    let mut i: usize = 0;
    while i < 32
        invariant
            0 <= i <= 32,
            forall|j: int| 0 <= j < i ==> a.bytes@[j] == b.bytes@[j],
        decreases 32 - i,
    {
        if a.bytes[i] != b.bytes[i] {
            return false;
        }
        i = i + 1;
    }
    proof {
        assert(a@ =~= b@);
    }
    true
}

/// Copies an address into a plain byte vector, for use as seed material.
pub fn addr_to_vec(a: &Address) -> (v: Vec<u8>)
    ensures
        v@ == a@,
{
    let mut v: Vec<u8> = Vec::new();
    let mut i: usize = 0;
    while i < 32
        invariant
            0 <= i <= 32,
            v@.len() == i,
            forall|j: int| 0 <= j < i ==> v@[j] == a.bytes@[j],
        decreases 32 - i,
    {
        v.push(a.bytes[i]);
        i = i + 1;
    }
    proof {
        assert(v@ =~= a@);
    }
    v
}

/// A fungible-asset account on the host ledger: its address, the asset type
/// (the mint it holds) and its current balance.
#[derive(Clone, Copy, Debug)]
pub struct Account {
    pub address: Address,
    pub asset_type: Address,
    pub balance: u64,
}

} // verus!
