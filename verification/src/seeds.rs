use vstd::prelude::*;
use crate::address::{Address, addr_to_vec};

verus! {

/// Which party's vault a seed set derives: each role has its own tag, so the
/// two vaults of one challenge never share seed material.
#[derive(Clone, Copy, Debug, PartialEq, Eq, Structural)]
pub enum Role {
    Initiator,
    Acceptor,
}

/// Tag starting the seed set of a challenge record: the bytes of
/// `"challenge"`.
pub open spec fn challenge_tag() -> Seq<u8> {
    seq![99u8, 104, 97, 108, 108, 101, 110, 103, 101]
}

/// Tag starting the seed set of a party's vault: the bytes of
/// `"initiator_tokens_vault"` or `"acceptor_tokens_vault"`.
pub open spec fn role_tag(role: Role) -> Seq<u8> {
    match role {
        Role::Initiator => seq![
            105u8, 110, 105, 116, 105, 97, 116, 111, 114, 95, 116, 111, 107, 101, 110, 115, 95,
            118, 97, 117, 108, 116,
        ],
        Role::Acceptor => seq![
            97u8, 99, 99, 101, 112, 116, 111, 114, 95, 116, 111, 107, 101, 110, 115, 95, 118, 97,
            117, 108, 116,
        ],
    }
}

/// Seed composition for a challenge record: the tag, then the initiator's
/// address. This order is the wire contract outside parties recompute.
pub open spec fn challenge_seed_view(initiator: Seq<u8>) -> Seq<Seq<u8>> {
    seq![challenge_tag(), initiator]
}

/// Seed composition for a vault: the role's tag, then the challenge id.
pub open spec fn vault_seed_view(role: Role, id: Seq<u8>) -> Seq<Seq<u8>> {
    seq![role_tag(role), id]
}

fn challenge_tag_bytes() -> (v: Vec<u8>)
    ensures
        v@ == challenge_tag(),
{
    let mut v: Vec<u8> = Vec::new();
    v.push(99);
    v.push(104);
    v.push(97);
    v.push(108);
    v.push(108);
    v.push(101);
    v.push(110);
    v.push(103);
    v.push(101);
    proof {
        assert(v@ =~= challenge_tag());
    }
    v
}

fn role_tag_bytes(role: Role) -> (v: Vec<u8>)
    ensures
        v@ == role_tag(role),
{
    let mut v: Vec<u8> = Vec::new();
    match role {
        Role::Initiator => {
            v.push(105);
            v.push(110);
            v.push(105);
            v.push(116);
            v.push(105);
            v.push(97);
            v.push(116);
        }
        Role::Acceptor => {
            v.push(97);
            v.push(99);
            v.push(99);
            v.push(101);
            v.push(112);
            v.push(116);
        }
    }
    v.push(111);
    v.push(114);
    v.push(95);
    v.push(116);
    v.push(111);
    v.push(107);
    v.push(101);
    v.push(110);
    v.push(115);
    v.push(95);
    v.push(118);
    v.push(97);
    v.push(117);
    v.push(108);
    v.push(116);
    proof {
        assert(v@ =~= role_tag(role));
    }
    v
}

/// Builds the seed set a challenge record's address is derived from.
pub fn challenge_seeds(initiator: &Address) -> (s: Vec<Vec<u8>>)
    ensures
        s.deep_view() == challenge_seed_view(initiator@),
{
    let mut s: Vec<Vec<u8>> = Vec::new();
    s.push(challenge_tag_bytes());
    s.push(addr_to_vec(initiator));
    proof {
        assert(s.deep_view() =~~= challenge_seed_view(initiator@));
    }
    s
}

/// Builds the seed set a vault's address is derived from.
pub fn vault_seeds(role: Role, id: &Address) -> (s: Vec<Vec<u8>>)
    ensures
        s.deep_view() == vault_seed_view(role, id@),
{
    let mut s: Vec<Vec<u8>> = Vec::new();
    s.push(role_tag_bytes(role));
    s.push(addr_to_vec(id));
    proof {
        assert(s.deep_view() =~~= vault_seed_view(role, id@));
    }
    s
}

} // verus!
