use anchor_lang::solana_program::pubkey::Pubkey;
use escrow_anchor::authority::{find_authority, recreate_authority};
use escrow_anchor::Address;

fn at(n: u8) -> Address {
    Address::new([n; 32])
}

fn key(a: &Address) -> Pubkey {
    Pubkey::new_from_array(a.to_bytes())
}

#[test]
fn authority_is_the_program_address_of_the_escrow_seeds() {
    let program = at(200);
    let maker = at(1);
    let seed: u64 = 0x0102030405060708;
    let (address, bump) = find_authority(&program, &maker, seed).unwrap();
    let number = [8u8, 7, 6, 5, 4, 3, 2, 1];
    let expected = Pubkey::find_program_address(
        &[&b"escrow"[..], &maker.to_bytes()[..], &number[..]],
        &key(&program),
    );
    assert_eq!(key(&address), expected.0);
    assert_eq!(bump, expected.1);
    assert_ne!(address, maker);
    assert_ne!(address, program);
}

#[test]
fn authority_depends_on_program_maker_and_seed() {
    let (base, _) = find_authority(&at(200), &at(1), 5).unwrap();
    assert_eq!(find_authority(&at(200), &at(1), 5).unwrap().0, base);
    assert_ne!(find_authority(&at(201), &at(1), 5).unwrap().0, base);
    assert_ne!(find_authority(&at(200), &at(2), 5).unwrap().0, base);
    assert_ne!(find_authority(&at(200), &at(1), 6).unwrap().0, base);
    assert_ne!(find_authority(&at(200), &at(1), 5 << 8).unwrap().0, base);
}

#[test]
fn stored_bump_leads_back_to_the_authority() {
    for seed in [0u64, 1, 255, 256, u64::MAX] {
        let (address, bump) = find_authority(&at(200), &at(1), seed).unwrap();
        assert_eq!(recreate_authority(&at(200), &at(1), seed, bump), Some(address));
        let expected = Pubkey::create_program_address(
            &[&b"escrow"[..], &at(1).to_bytes()[..], &seed.to_le_bytes()[..], &[bump][..]],
            &key(&at(200)),
        )
        .unwrap();
        assert_eq!(key(&address), expected);
    }
}

#[test]
fn another_bump_leads_elsewhere_or_nowhere() {
    let (address, bump) = find_authority(&at(200), &at(1), 42).unwrap();
    let other = bump.wrapping_sub(1);
    let rebuilt = recreate_authority(&at(200), &at(1), 42, other);
    assert_ne!(rebuilt, Some(address));
    let expected = Pubkey::create_program_address(
        &[&b"escrow"[..], &at(1).to_bytes()[..], &42u64.to_le_bytes()[..], &[other][..]],
        &key(&at(200)),
    )
    .ok();
    assert_eq!(rebuilt.map(|a| key(&a)), expected);
}

#[test]
fn bumps_above_the_found_one_lead_nowhere() {
    let (_, bump) = find_authority(&at(200), &at(1), 42).unwrap();
    let mut above = bump;
    while above < u8::MAX {
        above += 1;
        assert_eq!(recreate_authority(&at(200), &at(1), 42, above), None);
    }
}
