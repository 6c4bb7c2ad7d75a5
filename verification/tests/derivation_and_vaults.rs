use cross_pile::address::{Account, Address, addr_eq};
use cross_pile::authority::derive_authority;
use cross_pile::errors::Error;
use cross_pile::seeds::Role;
use cross_pile::vault::Vault;

fn addr(n: u8) -> Address {
    Address { bytes: [n; 32] }
}

fn account(owner: u8, asset: Address, balance: u64) -> Account {
    Account { address: addr(owner), asset_type: asset, balance }
}

#[test]
fn same_seeds_derive_the_same_vault_address() {
    let program = addr(9);
    let id = addr(42);
    let a1 = cross_pile::authority::derive_vault_address(&program, Role::Initiator, &id).unwrap();
    let a2 = cross_pile::authority::derive_vault_address(&program, Role::Initiator, &id).unwrap();
    assert_eq!(a1.bytes, a2.bytes);
    assert!(addr_eq(&a1, &a2));
    let other_role =
        cross_pile::authority::derive_vault_address(&program, Role::Acceptor, &id).unwrap();
    assert_ne!(a1.bytes, other_role.bytes);
    assert_ne!(a1.bytes, id.bytes);
}

#[test]
fn sampled_id_role_pairs_never_collide() {
    let program = addr(9);
    let mut seen: Vec<[u8; 32]> = Vec::new();
    for i in 0..5000u32 {
        let mut bytes = [0u8; 32];
        bytes[0..4].copy_from_slice(&i.to_le_bytes());
        let id = Address { bytes };
        for role in [Role::Initiator, Role::Acceptor] {
            let a = cross_pile::authority::derive_vault_address(&program, role, &id).unwrap();
            assert_ne!(a.bytes, id.bytes);
            seen.push(a.bytes);
        }
    }
    let n = seen.len();
    assert_eq!(n, 10000);
    seen.sort_unstable();
    seen.dedup();
    assert_eq!(seen.len(), n);
}

#[test]
fn derivation_matches_an_independent_recomputation() {
    let program = addr(9);
    let id = addr(42);
    let ours = cross_pile::authority::derive_vault_address(&program, Role::Initiator, &id).unwrap();
    let pid = spl_token::solana_program::pubkey::Pubkey::new_from_array(program.bytes);
    let (theirs, _bump) = spl_token::solana_program::pubkey::Pubkey::find_program_address(
        &[b"initiator_tokens_vault", &id.bytes],
        &pid,
    );
    assert_eq!(ours.bytes, theirs.to_bytes());
}

#[test]
fn malformed_seed_material_is_rejected() {
    let program = addr(9);
    let too_long: Vec<Vec<u8>> = vec![vec![7u8; 33]];
    assert!(matches!(derive_authority(&program, &too_long), Err(Error::InvalidSeed)));
    let too_many: Vec<Vec<u8>> = (0..16).map(|i| vec![i as u8]).collect();
    assert!(matches!(derive_authority(&program, &too_many), Err(Error::InvalidSeed)));
}

#[test]
fn derive_authority_capability_signs_for_its_address() {
    let program = addr(9);
    let seeds: Vec<Vec<u8>> = vec![vec![1, 2, 3]];
    let (address, cap) = derive_authority(&program, &seeds).unwrap();
    assert!(cap.authorizes(&address));
    let other = derive_authority(&program, &vec![vec![4, 5, 6]]).unwrap();
    assert!(!cap.authorizes(&other.0));
}

#[test]
fn funding_with_the_wrong_asset_fails_and_leaves_zero() {
    let asset_x = addr(100);
    let asset_y = addr(101);
    let mut vault = Vault::new(addr(50), asset_x, addr(51));
    let mut source = account(1, asset_y, 500);
    let r = vault.fund(&mut source, 100);
    assert_eq!(r, Err(Error::AssetTypeMismatch));
    assert_eq!(vault.balance, 0);
    assert_eq!(source.balance, 500);
}

#[test]
fn funding_twice_fails_already_funded() {
    let asset_x = addr(100);
    let mut vault = Vault::new(addr(50), asset_x, addr(51));
    let mut source = account(1, asset_x, 500);
    vault.fund(&mut source, 100).unwrap();
    let r = vault.fund(&mut source, 100);
    assert_eq!(r, Err(Error::AlreadyFunded));
    assert_eq!(vault.balance, 100);
    assert_eq!(source.balance, 400);
}

#[test]
fn funding_a_zero_amount_fails() {
    let asset_x = addr(100);
    let mut vault = Vault::new(addr(50), asset_x, addr(51));
    let mut source = account(1, asset_x, 500);
    assert_eq!(vault.fund(&mut source, 0), Err(Error::InvalidAmount));
}

#[test]
fn payout_needs_the_matching_capability() {
    let program = addr(9);
    let (authority, cap) = derive_authority(&program, &vec![vec![1]]).unwrap();
    let (_, wrong_cap) = derive_authority(&program, &vec![vec![2]]).unwrap();
    let asset_x = addr(100);
    let mut vault = Vault::new(addr(50), asset_x, authority);
    let mut source = account(1, asset_x, 500);
    vault.fund(&mut source, 100).unwrap();
    let mut dest = account(1, asset_x, 0);
    assert_eq!(vault.payout(&wrong_cap, &mut dest, 50), Err(Error::Unauthorized));
    assert_eq!(vault.balance, 100);
    assert_eq!(vault.payout(&cap, &mut dest, 50), Ok(()));
    assert_eq!(dest.balance, 50);
    assert_eq!(vault.balance, 50);
}

#[test]
fn payout_cannot_exceed_the_vault_balance() {
    let program = addr(9);
    let (authority, cap) = derive_authority(&program, &vec![vec![1]]).unwrap();
    let asset_x = addr(100);
    let mut vault = Vault::new(addr(50), asset_x, authority);
    let mut source = account(1, asset_x, 500);
    vault.fund(&mut source, 100).unwrap();
    let mut dest = account(1, asset_x, 0);
    let r = vault.payout(&cap, &mut dest, 200);
    assert_eq!(r, Err(Error::InsufficientVaultBalance));
    assert_eq!(vault.balance, 100);
    assert_eq!(dest.balance, 0);
}

#[test]
fn a_vault_only_closes_once_drained() {
    let program = addr(9);
    let (authority, cap) = derive_authority(&program, &vec![vec![1]]).unwrap();
    let asset_x = addr(100);
    let mut vault = Vault::new(addr(50), asset_x, authority);
    let mut source = account(1, asset_x, 500);
    vault.fund(&mut source, 100).unwrap();
    assert_eq!(vault.close(&cap), Err(Error::VaultNotEmpty));
    let mut dest = account(1, asset_x, 0);
    vault.payout(&cap, &mut dest, 100).unwrap();
    assert_eq!(vault.close(&cap), Ok(()));
    assert!(vault.closed);
    let mut late_source = account(1, asset_x, 500);
    assert_eq!(vault.fund(&mut late_source, 10), Err(Error::AlreadyFunded));
    let r = vault.payout(&cap, &mut dest, 1);
    assert_eq!(r, Err(Error::InsufficientVaultBalance));
}
