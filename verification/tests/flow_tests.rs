use escrow::addr::Address;
use escrow::make::make;
use escrow::refund::refund;
use escrow::state::EscrowStore;
use escrow::state::TokenAccount;
use escrow::take::take;

fn addr(tag: u8) -> Address {
    Address::new([tag; 32])
}

#[test]
fn test_make_and_take_with_litesvm() {
    let program = addr(1);
    let maker = addr(2);
    let taker = addr(3);
    let mint_a = addr(4);
    let mint_b = addr(5);

    let mut store = EscrowStore::new(program);
    let mut maker_ata_a = TokenAccount { holder: maker, asset: mint_a, amount: 1_000_000_000 };
    let mut taker_ata_b = TokenAccount { holder: taker, asset: mint_b, amount: 500_000_000 };
    let mut taker_ata_a = TokenAccount { holder: taker, asset: mint_a, amount: 0 };
    let mut maker_ata_b = TokenAccount { holder: maker, asset: mint_b, amount: 0 };

    let seed: u64 = 42;
    let (escrow_pda, _bump) = store.trade_address(&maker, seed);

    let r = make(
        &mut store,
        &maker,
        true,
        seed,
        500_000_000,
        1_000_000_000,
        &mint_a,
        &mint_b,
        &mut maker_ata_a,
    );
    assert!(r.is_ok());

    let r = take(
        &mut store,
        &taker,
        true,
        &maker,
        &escrow_pda,
        &mint_a,
        &mint_b,
        &mut taker_ata_b,
        &mut taker_ata_a,
        &mut maker_ata_b,
    );
    assert!(r.is_ok());

    assert!(
        !store.has_open_trade(&escrow_pda),
        "Escrow account should be closed (0 lamports, 0 data)"
    );
    assert!(
        store.vault_balance(&escrow_pda).is_none(),
        "Vault account should be closed (0 lamports, 0 data)"
    );
    assert_eq!(
        taker_ata_a.amount, 1_000_000_000,
        "Taker should have received 1 token from mint_a"
    );
    assert_eq!(taker_ata_b.amount, 0, "Taker should have sent all tokens from mint_b");
    assert_eq!(
        maker_ata_b.amount, 500_000_000,
        "Maker should have received 0.5 tokens from mint_b"
    );
}

#[test]
fn test_make_and_take_with_utils() {
    let program = addr(11);
    let maker = addr(12);
    let taker = addr(13);
    let mint_a = addr(14);
    let mint_b = addr(15);

    let mut store = EscrowStore::new(program);
    let mut maker_ata_a = TokenAccount { holder: maker, asset: mint_a, amount: 1_000_000_000 };
    let mut taker_ata_b = TokenAccount { holder: taker, asset: mint_b, amount: 500_000_000 };
    let mut taker_ata_a = TokenAccount { holder: taker, asset: mint_a, amount: 0 };
    let mut maker_ata_b = TokenAccount { holder: maker, asset: mint_b, amount: 0 };

    let seed: u64 = 42;
    let (escrow_pda, _bump) = store.trade_address(&maker, seed);

    make(
        &mut store,
        &maker,
        true,
        seed,
        500_000_000,
        1_000_000_000,
        &mint_a,
        &mint_b,
        &mut maker_ata_a,
    )
    .unwrap();

    assert!(store.has_open_trade(&escrow_pda), "Escrow account should exist");
    assert_eq!(store.vault_balance(&escrow_pda), Some(1_000_000_000));
    assert_eq!(maker_ata_a.amount, 0);

    let result = take(
        &mut store,
        &taker,
        true,
        &maker,
        &escrow_pda,
        &mint_a,
        &mint_b,
        &mut taker_ata_b,
        &mut taker_ata_a,
        &mut maker_ata_b,
    );
    assert!(result.is_ok());

    assert!(!store.has_open_trade(&escrow_pda));
    assert!(store.vault_balance(&escrow_pda).is_none());
    assert_eq!(taker_ata_a.amount, 1_000_000_000);
    assert_eq!(taker_ata_b.amount, 0);
    assert_eq!(maker_ata_b.amount, 500_000_000);
}

#[test]
fn make_then_refund_returns_full_deposit() {
    let program = addr(21);
    let maker = addr(22);
    let taker = addr(23);
    let mint_a = addr(24);
    let mint_b = addr(25);

    let mut store = EscrowStore::new(program);
    let mut maker_ata_a = TokenAccount { holder: maker, asset: mint_a, amount: 750_000 };
    let taker_ata_b = TokenAccount { holder: taker, asset: mint_b, amount: 900 };
    let mut maker_dest_a = TokenAccount { holder: maker, asset: mint_a, amount: 0 };

    let seed: u64 = 7;
    let (escrow_pda, _bump) = store.trade_address(&maker, seed);

    make(&mut store, &maker, true, seed, 900, 750_000, &mint_a, &mint_b, &mut maker_ata_a)
        .unwrap();
    assert_eq!(maker_ata_a.amount, 0);

    let r = refund(&mut store, &maker, true, &escrow_pda, &mut maker_dest_a);
    assert!(r.is_ok());

    assert_eq!(maker_dest_a.amount, 750_000);
    assert!(!store.has_open_trade(&escrow_pda));
    assert!(store.vault_balance(&escrow_pda).is_none());
    // No taker account takes part in a refund: the taker's balance stands.
    assert_eq!(taker_ata_b.amount, 900);
}

#[test]
fn distinct_seeds_open_distinct_trades() {
    let program = addr(31);
    let maker = addr(32);
    let mint_a = addr(34);
    let mint_b = addr(35);

    let mut store = EscrowStore::new(program);
    let mut maker_ata_a = TokenAccount { holder: maker, asset: mint_a, amount: 1_000 };

    let (pda_one, _) = store.trade_address(&maker, 1);
    let (pda_two, _) = store.trade_address(&maker, 2);
    assert!(!pda_one.equals(&pda_two));
    assert!(!pda_one.equals(&maker));

    make(&mut store, &maker, true, 1, 10, 400, &mint_a, &mint_b, &mut maker_ata_a).unwrap();
    make(&mut store, &maker, true, 2, 10, 600, &mint_a, &mint_b, &mut maker_ata_a).unwrap();

    assert_eq!(store.open_trades(), 2);
    assert_eq!(store.vault_balance(&pda_one), Some(400));
    assert_eq!(store.vault_balance(&pda_two), Some(600));
    assert_eq!(maker_ata_a.amount, 0);
}

#[test]
fn take_leaves_other_trades_untouched() {
    let program = addr(51);
    let maker = addr(52);
    let taker = addr(53);
    let mint_a = addr(54);
    let mint_b = addr(55);

    let mut store = EscrowStore::new(program);
    let mut maker_ata_a = TokenAccount { holder: maker, asset: mint_a, amount: 1_000 };
    let (pda_one, _) = store.trade_address(&maker, 1);
    let (pda_two, _) = store.trade_address(&maker, 2);
    make(&mut store, &maker, true, 1, 10, 400, &mint_a, &mint_b, &mut maker_ata_a).unwrap();
    make(&mut store, &maker, true, 2, 10, 600, &mint_a, &mint_b, &mut maker_ata_a).unwrap();

    let mut src_b = TokenAccount { holder: taker, asset: mint_b, amount: 10 };
    let mut dest_a = TokenAccount { holder: taker, asset: mint_a, amount: 0 };
    let mut dest_b = TokenAccount { holder: maker, asset: mint_b, amount: 0 };
    take(
        &mut store,
        &taker,
        true,
        &maker,
        &pda_one,
        &mint_a,
        &mint_b,
        &mut src_b,
        &mut dest_a,
        &mut dest_b,
    )
    .unwrap();

    assert!(!store.has_open_trade(&pda_one));
    assert!(store.has_open_trade(&pda_two));
    assert_eq!(store.vault_balance(&pda_two), Some(600));
    assert_eq!(store.open_trades(), 1);
    assert_eq!(dest_a.amount, 400);
}

#[test]
fn derivation_is_deterministic() {
    let program = addr(41);
    let maker = addr(42);
    let store = EscrowStore::new(program);

    let (pda_first, bump_first) = store.trade_address(&maker, 42);
    let (pda_again, bump_again) = store.trade_address(&maker, 42);
    assert!(pda_first.equals(&pda_again));
    assert_eq!(bump_first, bump_again);
}
