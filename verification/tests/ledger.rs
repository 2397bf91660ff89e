use escrow_anchor::authority::find_authority;
use escrow_anchor::instructions::escrow_authority;
use escrow_anchor::{make, refund, take};
use escrow_anchor::{Address, Escrow, EscrowError, Holding, Ledger, Make, MakeBumps, Refund, Take};

fn at(n: u8) -> Address {
    Address::new([n; 32])
}

#[test]
fn address_keeps_its_bytes() {
    let mut bytes = [0u8; 32];
    bytes[0] = 1;
    bytes[31] = 255;
    let a = Address::new(bytes);
    assert_eq!(a.to_bytes(), bytes);
    assert!(a.same(&Address::new(bytes)));
    bytes[31] = 254;
    assert!(!a.same(&Address::new(bytes)));
    assert!(!at(1).same(&at(2)));
}

#[test]
fn new_ledger_is_empty() {
    let ledger = Ledger::new(at(9));
    assert_eq!(ledger.program(), at(9));
    assert_eq!(ledger.holding(&at(1)), None);
    assert_eq!(ledger.escrow(&at(1)), None);
    assert_eq!(ledger.supply_of(&at(1)), 0);
    assert_eq!(ledger.held(&at(1), &at(2), &at(3)), 0);
    assert!(!ledger.receives(&at(1), &at(2), &at(3)));
}

#[test]
fn account_is_opened_once() {
    let mut ledger = Ledger::new(at(9));
    assert!(ledger.open_account(at(1), at(2), at(3), 15));
    assert_eq!(
        ledger.holding(&at(1)),
        Some(Holding { address: at(1), owner: at(2), asset: at(3), amount: 15, custody: false })
    );
    assert!(!ledger.open_account(at(1), at(4), at(5), 1));
    assert!(!ledger.open_account(at(1), at(2), at(3), 15));
    assert_eq!(ledger.holding(&at(1)).unwrap().amount, 15);
    assert_eq!(ledger.supply_of(&at(3)), 15);
    assert_eq!(ledger.supply_of(&at(5)), 0);
}

#[test]
fn supply_never_passes_the_largest_amount() {
    let mut ledger = Ledger::new(at(9));
    assert!(ledger.open_account(at(1), at(2), at(3), u64::MAX - 1));
    assert!(!ledger.open_account(at(4), at(2), at(3), 2));
    assert_eq!(ledger.holding(&at(4)), None);
    assert!(ledger.open_account(at(4), at(2), at(3), 1));
    assert!(!ledger.open_account(at(5), at(2), at(3), 1));
    assert!(ledger.open_account(at(5), at(2), at(3), 0));
    assert!(ledger.open_account(at(6), at(2), at(7), u64::MAX));
    assert_eq!(ledger.supply_of(&at(3)), u64::MAX);
    assert_eq!(ledger.supply_of(&at(7)), u64::MAX);
}

#[test]
fn held_counts_only_what_the_owner_can_spend() {
    let mut ledger = Ledger::new(at(9));
    assert!(ledger.open_account(at(1), at(2), at(3), 15));
    assert_eq!(ledger.held(&at(1), &at(2), &at(3)), 15);
    assert_eq!(ledger.held(&at(1), &at(4), &at(3)), 0);
    assert_eq!(ledger.held(&at(1), &at(2), &at(4)), 0);
    assert_eq!(ledger.held(&at(5), &at(2), &at(3)), 0);
    assert!(ledger.receives(&at(1), &at(2), &at(3)));
    assert!(!ledger.receives(&at(1), &at(4), &at(3)));
    assert!(!ledger.receives(&at(1), &at(2), &at(4)));
    assert!(!ledger.receives(&at(5), &at(2), &at(3)));
}

#[test]
fn vault_is_spent_by_nobody_directly() {
    let mut ledger = Ledger::new(at(9));
    assert!(ledger.open_account(at(1), at(2), at(3), 15));
    let (vault, _) = find_authority(&at(9), &at(2), 0).unwrap();
    let open = Make { maker: at(2), signed: true, asset_a: at(3), asset_b: at(4), maker_a: at(1), vault };
    assert_eq!(make(&mut ledger, &open, 0, 15, 1), Ok(()));
    assert_eq!(ledger.held(&vault, &vault, &at(3)), 0);
    assert!(!ledger.receives(&vault, &vault, &at(3)));
    // A party that signs under the vault's own address still cannot open an
    // escrow out of the vault.
    let (second, _) = find_authority(&at(9), &vault, 0).unwrap();
    let drain = Make { maker: vault, signed: true, asset_a: at(3), asset_b: at(4), maker_a: vault, vault: second };
    assert_eq!(make(&mut ledger, &drain, 0, 15, 1), Err(EscrowError::InsufficientFunds));
    assert_eq!(ledger.holding(&vault).unwrap().amount, 15);
    // Nor can a taker pay out of it.
    assert!(ledger.open_account(at(5), vault, at(3), 0));
    assert!(ledger.open_account(at(6), at(2), at(4), 0));
    let pay = Take { taker: vault, signed: true, maker: at(2), escrow: vault, vault, taker_a: at(5), taker_b: vault, maker_b: at(6) };
    assert_eq!(take(&mut ledger, &pay), Err(EscrowError::InsufficientFunds));
    assert_eq!(ledger.holding(&vault).unwrap().amount, 15);
}

#[test]
fn make_accounts_are_checked_against_the_found_authority() {
    let mut ledger = Ledger::new(at(9));
    assert!(ledger.open_account(at(1), at(2), at(3), 15));
    let open = Make { maker: at(2), signed: true, asset_a: at(3), asset_b: at(4), maker_a: at(1), vault: at(50) };
    assert_eq!(open.validate(&ledger, 5, 6, Some((at(50), 254))), Ok(MakeBumps { escrow: 254 }));
    assert_eq!(open.validate(&ledger, 16, 6, Some((at(50), 254))), Ok(MakeBumps { escrow: 254 }));
    assert_eq!(open.validate(&ledger, 5, 6, Some((at(51), 254))), Err(EscrowError::AddressMismatch));
    assert_eq!(open.validate(&ledger, 5, 6, None), Err(EscrowError::AddressMismatch));
    assert_eq!(open.validate(&ledger, 0, 6, Some((at(50), 254))), Err(EscrowError::InvalidAmount));
    assert_eq!(open.validate(&ledger, 5, 0, Some((at(50), 254))), Err(EscrowError::InvalidAmount));
    assert_eq!(open.validate(&ledger, 0, 6, None), Err(EscrowError::InvalidAmount));
    let unsigned = Make { signed: false, ..open };
    assert_eq!(unsigned.validate(&ledger, 0, 6, None), Err(EscrowError::Unauthorized));
    let taken = Make { vault: at(1), ..open };
    assert_eq!(taken.validate(&ledger, 5, 6, Some((at(1), 254))), Err(EscrowError::AddressMismatch));
}

#[test]
fn take_accounts_are_checked_against_the_rebuilt_authority() {
    let mut ledger = Ledger::new(at(9));
    assert!(ledger.open_account(at(1), at(2), at(3), 15));
    assert!(ledger.open_account(at(6), at(2), at(4), 0));
    assert!(ledger.open_account(at(7), at(8), at(3), 0));
    assert!(ledger.open_account(at(10), at(8), at(4), 0));
    let (vault, _) = find_authority(&at(9), &at(2), 1).unwrap();
    let open = Make { maker: at(2), signed: true, asset_a: at(3), asset_b: at(4), maker_a: at(1), vault };
    assert_eq!(make(&mut ledger, &open, 1, 15, 1), Ok(()));
    let accounts = Take { taker: at(8), signed: true, maker: at(2), escrow: vault, vault, taker_a: at(7), taker_b: at(10), maker_b: at(6) };
    assert_eq!(accounts.validate(&ledger, Some(vault)), Ok(()));
    assert_eq!(accounts.validate(&ledger, Some(at(1))), Err(EscrowError::AddressMismatch));
    assert_eq!(accounts.validate(&ledger, None), Err(EscrowError::AddressMismatch));
    let elsewhere = Take { vault: at(1), ..accounts };
    assert_eq!(elsewhere.validate(&ledger, Some(at(1))), Err(EscrowError::AddressMismatch));
    let unsigned = Take { signed: false, ..accounts };
    assert_eq!(unsigned.validate(&ledger, None), Err(EscrowError::Unauthorized));
    let closed = Take { escrow: at(1), signed: false, ..accounts };
    assert_eq!(closed.validate(&ledger, Some(vault)), Err(EscrowError::AlreadyClosed));
    assert_eq!(escrow_authority(&ledger, &vault), Some(vault));
    assert_eq!(escrow_authority(&ledger, &at(1)), None);
    assert_eq!(take(&mut ledger, &accounts), Err(EscrowError::InsufficientFunds));
}

#[test]
fn refund_accounts_are_checked_against_the_rebuilt_authority() {
    let mut ledger = Ledger::new(at(9));
    assert!(ledger.open_account(at(1), at(2), at(3), 15));
    assert!(ledger.open_account(at(7), at(8), at(3), 0));
    let (vault, _) = find_authority(&at(9), &at(2), 1).unwrap();
    let open = Make { maker: at(2), signed: true, asset_a: at(3), asset_b: at(4), maker_a: at(1), vault };
    assert_eq!(make(&mut ledger, &open, 1, 15, 1), Ok(()));
    let accounts = Refund { maker: at(2), signed: true, escrow: vault, vault, maker_a: at(1) };
    assert_eq!(accounts.validate(&ledger, Some(vault)), Ok(()));
    assert_eq!(accounts.validate(&ledger, Some(at(1))), Err(EscrowError::AddressMismatch));
    assert_eq!(accounts.validate(&ledger, None), Err(EscrowError::AddressMismatch));
    let stranger = Refund { maker: at(8), maker_a: at(7), ..accounts };
    assert_eq!(stranger.validate(&ledger, Some(vault)), Err(EscrowError::Unauthorized));
    let unsigned = Refund { signed: false, ..accounts };
    assert_eq!(unsigned.validate(&ledger, Some(vault)), Err(EscrowError::Unauthorized));
    let closed = Refund { escrow: at(1), ..stranger };
    assert_eq!(closed.validate(&ledger, Some(vault)), Err(EscrowError::AlreadyClosed));
    assert_eq!(refund(&mut ledger, &accounts), Ok(()));
    assert_eq!(accounts.validate(&ledger, Some(vault)), Err(EscrowError::AlreadyClosed));
}

fn vault_at(address: Address, asset: Address, amount: u64) -> Holding {
    Holding { address, owner: address, asset, amount, custody: true }
}

#[test]
fn restored_escrow_can_be_fulfilled() {
    let (vault, bump) = find_authority(&at(9), &at(2), 77).unwrap();
    let terms = Escrow { maker: at(2), seed: 77, asset_a: at(3), asset_b: at(4), receive_amount: 8, bump };
    let mut ledger = Ledger::new(at(9));
    assert!(ledger.open_account(at(6), at(2), at(4), 0));
    assert!(ledger.open_account(at(7), at(8), at(3), 0));
    assert!(ledger.open_account(at(10), at(8), at(4), 8));
    assert_eq!(ledger.restore_escrow(terms, vault_at(vault, at(3), 25)), Some(vault));
    assert_eq!(ledger.escrow(&vault), Some(terms));
    assert_eq!(ledger.holding(&vault), Some(vault_at(vault, at(3), 25)));
    assert_eq!(ledger.supply_of(&at(3)), 25);
    assert_eq!(ledger.restore_escrow(terms, vault_at(vault, at(3), 25)), None);
    assert_eq!(ledger.supply_of(&at(3)), 25);
    let accounts = Take { taker: at(8), signed: true, maker: at(2), escrow: vault, vault, taker_a: at(7), taker_b: at(10), maker_b: at(6) };
    assert_eq!(take(&mut ledger, &accounts), Ok(()));
    assert_eq!(ledger.holding(&at(7)).unwrap().amount, 25);
    assert_eq!(ledger.holding(&at(6)).unwrap().amount, 8);
    assert_eq!(ledger.holding(&at(10)).unwrap().amount, 0);
    assert_eq!(ledger.escrow(&vault), None);
}

#[test]
fn escrow_is_restored_only_whole() {
    let (vault, bump) = find_authority(&at(9), &at(2), 77).unwrap();
    let terms = Escrow { maker: at(2), seed: 77, asset_a: at(3), asset_b: at(4), receive_amount: 8, bump };
    let mut ledger = Ledger::new(at(9));
    assert_eq!(ledger.restore_escrow(terms, vault_at(vault, at(3), 0)), None);
    assert_eq!(ledger.restore_escrow(Escrow { receive_amount: 0, ..terms }, vault_at(vault, at(3), 5)), None);
    assert_eq!(ledger.restore_escrow(terms, vault_at(vault, at(4), 5)), None);
    assert_eq!(ledger.restore_escrow(terms, vault_at(at(1), at(3), 5)), None);
    assert_eq!(ledger.restore_escrow(Escrow { seed: 78, ..terms }, vault_at(vault, at(3), 5)), None);
    assert_eq!(ledger.restore_escrow(Escrow { maker: at(5), ..terms }, vault_at(vault, at(3), 5)), None);
    assert_eq!(
        ledger.restore_escrow(terms, Holding { custody: false, ..vault_at(vault, at(3), 5) }),
        None
    );
    assert_eq!(
        ledger.restore_escrow(terms, Holding { owner: at(2), ..vault_at(vault, at(3), 5) }),
        None
    );
    assert!(ledger.open_account(at(1), at(2), at(3), u64::MAX - 4));
    assert_eq!(ledger.restore_escrow(terms, vault_at(vault, at(3), 5)), None);
    assert_eq!(ledger.holding(&vault), None);
    assert_eq!(ledger.escrow(&vault), None);
    assert_eq!(ledger.restore_escrow(terms, vault_at(vault, at(3), 4)), Some(vault));
    assert_eq!(ledger.supply_of(&at(3)), u64::MAX);
    let mut other = Ledger::new(at(9));
    assert!(other.open_account(vault, at(2), at(3), 1));
    assert_eq!(other.restore_escrow(terms, vault_at(vault, at(3), 4)), None);
    assert_eq!(other.escrow(&vault), None);
}
