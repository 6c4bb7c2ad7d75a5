use cross_pile::address::{Account, Address};
use cross_pile::challenge::Status;
use cross_pile::errors::Error;
use cross_pile::escrow::{Escrow, Outcome, run_two_party_wager};

fn addr(n: u8) -> Address {
    Address { bytes: [n; 32] }
}

fn account(owner: u8, asset: Address, balance: u64) -> Account {
    Account { address: addr(owner), asset_type: asset, balance }
}

#[test]
fn create_then_get_reports_created_and_funded() {
    let mut escrow = Escrow::new(addr(9));
    let initiator = addr(1);
    let asset_x = addr(100);
    let mut source = account(1, asset_x, 500);
    let id = escrow
        .create_challenge(&initiator, &asset_x, 100, &mut source)
        .expect("creation should go through");
    assert_eq!(source.balance, 400);
    let c = escrow.get_challenge(&id).expect("the record must be found");
    assert_eq!(c.status, Status::Created);
    assert_eq!(c.initiator, initiator);
    assert_eq!(c.initiator_asset_type, asset_x);
    assert_eq!(c.initiator_wager_amount, 100);
    assert_eq!(c.initiator_vault.balance, 100);
    assert!(!c.initiator_vault.closed);
    assert!(c.acceptor_side.is_none());
}

#[test]
fn get_challenge_reports_not_found() {
    let escrow = Escrow::new(addr(9));
    assert!(escrow.get_challenge(&addr(7)).is_none());
}

#[test]
fn accept_twice_fails_and_keeps_first_acceptor() {
    let mut escrow = Escrow::new(addr(9));
    let asset_x = addr(100);
    let mut source = account(1, asset_x, 500);
    let id = escrow.create_challenge(&addr(1), &asset_x, 100, &mut source).unwrap();
    let first = addr(2);
    let second = addr(3);
    let mut first_source = account(2, asset_x, 300);
    let mut second_source = account(3, asset_x, 300);
    escrow
        .accept_challenge(&id, &first, &asset_x, 100, &mut first_source)
        .expect("first acceptance should go through");
    let r = escrow.accept_challenge(&id, &second, &asset_x, 100, &mut second_source);
    assert_eq!(r, Err(Error::ChallengeAlreadyAccepted));
    assert_eq!(second_source.balance, 300);
    let c = escrow.get_challenge(&id).unwrap();
    let side = c.acceptor_side.as_ref().expect("an acceptor must be recorded");
    assert_eq!(side.acceptor, first);
    assert_eq!(c.status, Status::Accepted);
}

#[test]
fn resolve_moves_the_pool_and_closes_both_vaults() {
    let mut escrow = Escrow::new(addr(9));
    let asset_x = addr(100);
    let asset_y = addr(101);
    let mut source = account(1, asset_x, 500);
    let id = escrow.create_challenge(&addr(1), &asset_x, 100, &mut source).unwrap();
    let mut acc_source = account(2, asset_y, 500);
    escrow.accept_challenge(&id, &addr(2), &asset_y, 150, &mut acc_source).unwrap();
    let mut initiator_accounts = vec![account(1, asset_x, 0), account(1, asset_y, 0)];
    let mut acceptor_accounts = vec![account(2, asset_x, 0), account(2, asset_y, 0)];
    escrow
        .resolve_challenge(&id, Outcome::InitiatorWins, &mut initiator_accounts, &mut acceptor_accounts)
        .expect("resolution should go through");
    let won: u64 = initiator_accounts.iter().map(|a| a.balance).sum();
    let lost: u64 = acceptor_accounts.iter().map(|a| a.balance).sum();
    assert_eq!(won, 250);
    assert_eq!(lost, 0);
    let c = escrow.get_challenge(&id).unwrap();
    assert_eq!(c.status, Status::Resolved);
    assert_eq!(c.initiator_vault.balance, 0);
    assert!(c.initiator_vault.closed);
    let side = c.acceptor_side.as_ref().unwrap();
    assert_eq!(side.vault.balance, 0);
    assert!(side.vault.closed);
}

#[test]
fn resolve_twice_fails_and_moves_nothing() {
    let mut escrow = Escrow::new(addr(9));
    let asset_x = addr(100);
    let mut source = account(1, asset_x, 500);
    let id = escrow.create_challenge(&addr(1), &asset_x, 100, &mut source).unwrap();
    let mut acc_source = account(2, asset_x, 500);
    escrow.accept_challenge(&id, &addr(2), &asset_x, 100, &mut acc_source).unwrap();
    let mut initiator_accounts = vec![account(1, asset_x, 0)];
    let mut acceptor_accounts = vec![account(2, asset_x, 0)];
    escrow
        .resolve_challenge(&id, Outcome::InitiatorWins, &mut initiator_accounts, &mut acceptor_accounts)
        .unwrap();
    assert_eq!(initiator_accounts[0].balance, 200);
    let r = escrow.resolve_challenge(
        &id,
        Outcome::AcceptorWins,
        &mut initiator_accounts,
        &mut acceptor_accounts,
    );
    assert_eq!(r, Err(Error::AlreadyResolved));
    assert_eq!(initiator_accounts[0].balance, 200);
    assert_eq!(acceptor_accounts[0].balance, 0);
}

#[test]
fn concrete_scenario_initiator_takes_two_hundred() {
    let mut escrow = Escrow::new(addr(9));
    let asset_x = addr(100);
    let mut source = account(1, asset_x, 100);
    let id = escrow.create_challenge(&addr(1), &asset_x, 100, &mut source).unwrap();
    let mut acc_source = account(2, asset_x, 100);
    escrow.accept_challenge(&id, &addr(2), &asset_x, 100, &mut acc_source).unwrap();
    let mut initiator_accounts = vec![account(1, asset_x, 0)];
    let mut acceptor_accounts = vec![account(2, asset_x, 0)];
    escrow
        .resolve_challenge(&id, Outcome::InitiatorWins, &mut initiator_accounts, &mut acceptor_accounts)
        .unwrap();
    assert_eq!(initiator_accounts[0].balance, 200);
    assert_eq!(acceptor_accounts[0].balance, 0);
    let c = escrow.get_challenge(&id).unwrap();
    assert!(c.initiator_vault.closed);
    assert!(c.acceptor_side.as_ref().unwrap().vault.closed);
}

#[test]
fn session_pays_the_acceptor_on_their_win() {
    let r = run_two_party_wager(
        &addr(9),
        &addr(1),
        &addr(2),
        &addr(100),
        &addr(101),
        100,
        150,
        Outcome::AcceptorWins,
    );
    assert_eq!(r, Ok((0, 250)));
}

#[test]
fn session_rejects_a_zero_stake() {
    let r = run_two_party_wager(
        &addr(9),
        &addr(1),
        &addr(2),
        &addr(100),
        &addr(100),
        0,
        50,
        Outcome::InitiatorWins,
    );
    assert_eq!(r, Err(Error::InvalidAmount));
}

#[test]
fn create_rejects_zero_amount() {
    let mut escrow = Escrow::new(addr(9));
    let asset_x = addr(100);
    let mut source = account(1, asset_x, 500);
    let r = escrow.create_challenge(&addr(1), &asset_x, 0, &mut source);
    assert_eq!(r, Err(Error::InvalidAmount));
    assert_eq!(source.balance, 500);
    assert_eq!(escrow.challenges.len(), 0);
}

#[test]
fn create_rejects_wrong_asset_source() {
    let mut escrow = Escrow::new(addr(9));
    let mut source = account(1, addr(101), 500);
    let r = escrow.create_challenge(&addr(1), &addr(100), 100, &mut source);
    assert_eq!(r, Err(Error::AssetTypeMismatch));
    assert_eq!(source.balance, 500);
    assert_eq!(escrow.challenges.len(), 0);
}

#[test]
fn create_rejects_short_source_balance() {
    let mut escrow = Escrow::new(addr(9));
    let asset_x = addr(100);
    let mut source = account(1, asset_x, 50);
    let r = escrow.create_challenge(&addr(1), &asset_x, 100, &mut source);
    assert_eq!(r, Err(Error::InsufficientBalance));
    assert_eq!(source.balance, 50);
}

#[test]
fn create_twice_for_one_initiator_fails() {
    let mut escrow = Escrow::new(addr(9));
    let asset_x = addr(100);
    let mut source = account(1, asset_x, 500);
    escrow.create_challenge(&addr(1), &asset_x, 100, &mut source).unwrap();
    let r = escrow.create_challenge(&addr(1), &asset_x, 100, &mut source);
    assert_eq!(r, Err(Error::VaultAlreadyExists));
    assert_eq!(source.balance, 400);
}

#[test]
fn resolve_before_acceptance_fails() {
    let mut escrow = Escrow::new(addr(9));
    let asset_x = addr(100);
    let mut source = account(1, asset_x, 500);
    let id = escrow.create_challenge(&addr(1), &asset_x, 100, &mut source).unwrap();
    let mut initiator_accounts = vec![account(1, asset_x, 0)];
    let mut acceptor_accounts = vec![account(2, asset_x, 0)];
    let r = escrow.resolve_challenge(
        &id,
        Outcome::InitiatorWins,
        &mut initiator_accounts,
        &mut acceptor_accounts,
    );
    assert_eq!(r, Err(Error::NotYetAccepted));
}

#[test]
fn resolve_rejects_a_tampered_vault_balance() {
    let mut escrow = Escrow::new(addr(9));
    let asset_x = addr(100);
    let mut source = account(1, asset_x, 500);
    let id = escrow.create_challenge(&addr(1), &asset_x, 100, &mut source).unwrap();
    let mut acc_source = account(2, asset_x, 500);
    escrow.accept_challenge(&id, &addr(2), &asset_x, 100, &mut acc_source).unwrap();
    escrow.challenges[0].initiator_vault.balance = 1;
    let mut initiator_accounts = vec![account(1, asset_x, 0)];
    let mut acceptor_accounts = vec![account(2, asset_x, 0)];
    let r = escrow.resolve_challenge(
        &id,
        Outcome::InitiatorWins,
        &mut initiator_accounts,
        &mut acceptor_accounts,
    );
    assert_eq!(r, Err(Error::VaultBalanceMismatch));
    assert_eq!(initiator_accounts[0].balance, 0);
}

#[test]
fn resolve_rejects_a_tampered_vault_authority() {
    let mut escrow = Escrow::new(addr(9));
    let asset_x = addr(100);
    let mut source = account(1, asset_x, 500);
    let id = escrow.create_challenge(&addr(1), &asset_x, 100, &mut source).unwrap();
    let mut acc_source = account(2, asset_x, 500);
    escrow.accept_challenge(&id, &addr(2), &asset_x, 100, &mut acc_source).unwrap();
    escrow.challenges[0].initiator_vault.authority = addr(77);
    let mut initiator_accounts = vec![account(1, asset_x, 0)];
    let mut acceptor_accounts = vec![account(2, asset_x, 0)];
    let r = escrow.resolve_challenge(
        &id,
        Outcome::InitiatorWins,
        &mut initiator_accounts,
        &mut acceptor_accounts,
    );
    assert_eq!(r, Err(Error::Unauthorized));
    assert_eq!(initiator_accounts[0].balance, 0);
    assert_eq!(escrow.get_challenge(&id).unwrap().status, Status::Accepted);
}

#[test]
fn resolve_needs_a_destination_for_each_asset() {
    let mut escrow = Escrow::new(addr(9));
    let asset_x = addr(100);
    let asset_y = addr(101);
    let mut source = account(1, asset_x, 500);
    let id = escrow.create_challenge(&addr(1), &asset_x, 100, &mut source).unwrap();
    let mut acc_source = account(2, asset_y, 500);
    escrow.accept_challenge(&id, &addr(2), &asset_y, 150, &mut acc_source).unwrap();
    let mut initiator_accounts = vec![account(1, asset_x, 0)];
    let mut acceptor_accounts = vec![account(2, asset_x, 0), account(2, asset_y, 0)];
    let r = escrow.resolve_challenge(
        &id,
        Outcome::InitiatorWins,
        &mut initiator_accounts,
        &mut acceptor_accounts,
    );
    assert_eq!(r, Err(Error::AssetTypeMismatch));
    assert_eq!(initiator_accounts[0].balance, 0);
    let c = escrow.get_challenge(&id).unwrap();
    assert_eq!(c.status, Status::Accepted);
    assert_eq!(c.initiator_vault.balance, 100);
}
