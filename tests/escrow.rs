use anchor_lang::solana_program::pubkey::Pubkey;
use escrow::address::{find_offer_address, to_le_bytes, Address};
use escrow::error::EscrowError;
use escrow::instructions::{
    make_offer, make_offer_at, process, refund_offer, take_offer, Instruction, MakeOffer,
};
use escrow::ledger::Ledger;

fn addr(b: u8) -> Address {
    Address::new([b; 32])
}

fn program() -> Address {
    addr(200)
}

fn maker() -> Address {
    addr(1)
}

fn taker() -> Address {
    addr(2)
}

fn mint_a() -> Address {
    addr(10)
}

fn mint_b() -> Address {
    addr(11)
}

fn context() -> MakeOffer {
    MakeOffer { maker: maker(), token_mint_a: mint_a(), token_mint_b: mint_b() }
}

/// A ledger where the maker holds 1000 of A and the taker 500 of B.
fn funded() -> Ledger {
    let mut l = Ledger::new(program());
    assert!(l.mint_to(&maker(), &mint_a(), 1000));
    assert!(l.mint_to(&taker(), &mint_b(), 500));
    l
}

#[test]
fn make_offer_debits_maker_and_records_offer() {
    let mut l = funded();
    let offer = make_offer(&mut l, &context(), 7, 300, 120).unwrap();
    assert_eq!(l.balance_of(&maker(), &mint_a()), 700);
    let rec = l.record(7).unwrap();
    assert_eq!(rec.offer, offer);
    assert_eq!(rec.offer.id, 7);
    assert_eq!(rec.offer.maker, maker());
    assert_eq!(rec.offer.token_mint_a, mint_a());
    assert_eq!(rec.offer.token_mint_b, mint_b());
    assert_eq!(rec.offer.token_b_wanted_amount, 120);
    assert_eq!(rec.held, 300);
}

#[test]
fn make_offer_zero_offered_is_invalid_amount() {
    let mut l = funded();
    assert_eq!(make_offer(&mut l, &context(), 7, 0, 120), Err(EscrowError::InvalidAmount));
    assert_eq!(l.balance_of(&maker(), &mint_a()), 1000);
    assert!(l.record(7).is_none());
}

#[test]
fn make_offer_zero_wanted_is_invalid_amount() {
    let mut l = funded();
    assert_eq!(make_offer(&mut l, &context(), 7, 10, 0), Err(EscrowError::InvalidAmount));
    assert_eq!(l.balance_of(&maker(), &mint_a()), 1000);
}

#[test]
fn make_offer_same_mint_is_invalid_pair() {
    let mut l = funded();
    let ctx = MakeOffer { maker: maker(), token_mint_a: mint_a(), token_mint_b: mint_a() };
    assert_eq!(make_offer(&mut l, &ctx, 7, 10, 10), Err(EscrowError::InvalidAssetPair));
    assert_eq!(l.balance_of(&maker(), &mint_a()), 1000);
}

#[test]
fn make_offer_over_balance_is_insufficient_funder_balance() {
    let mut l = funded();
    assert_eq!(
        make_offer(&mut l, &context(), 7, 1001, 10),
        Err(EscrowError::InsufficientFunderBalance)
    );
    assert_eq!(l.balance_of(&maker(), &mint_a()), 1000);
    assert!(l.record(7).is_none());
}

#[test]
fn make_offer_whole_balance() {
    let mut l = funded();
    assert!(make_offer(&mut l, &context(), 7, 1000, 1).is_ok());
    assert_eq!(l.balance_of(&maker(), &mint_a()), 0);
}

#[test]
fn make_offer_twice_at_one_id_is_refused() {
    let mut l = funded();
    assert!(make_offer(&mut l, &context(), 7, 100, 10).is_ok());
    assert_eq!(
        make_offer(&mut l, &context(), 7, 100, 10),
        Err(EscrowError::OfferAlreadyExists)
    );
    assert_eq!(l.balance_of(&maker(), &mint_a()), 900);
    assert_eq!(l.record(7).unwrap().held, 100);
}

#[test]
fn make_offer_at_without_address_fails() {
    let mut l = funded();
    assert_eq!(
        make_offer_at(&mut l, &context(), 7, 100, 10, None),
        Err(EscrowError::AddressDerivationFailed)
    );
    assert_eq!(l.balance_of(&maker(), &mint_a()), 1000);
}

#[test]
fn make_offer_at_records_given_address() {
    let mut l = funded();
    let at = addr(77);
    let offer = make_offer_at(&mut l, &context(), 3, 100, 10, Some((at, 250))).unwrap();
    assert_eq!(offer.bump, 250);
    let rec = l.record(3).unwrap();
    assert_eq!(rec.address, at);
    assert_eq!(rec.offer.bump, 250);
    assert_eq!(rec.held, 100);
}

#[test]
fn offer_address_is_the_program_derived_address() {
    let mut l = funded();
    let offer = make_offer(&mut l, &context(), 42, 100, 10).unwrap();
    let (key, bump) = Pubkey::find_program_address(
        &[b"offer", &42u64.to_le_bytes()],
        &Pubkey::new_from_array(program().bytes),
    );
    let rec = l.record(42).unwrap();
    assert_eq!(rec.address.bytes, key.to_bytes());
    assert_eq!(offer.bump, bump);
    assert_ne!(rec.address, program());
}

#[test]
fn derived_address_depends_on_id() {
    let a = find_offer_address(1, &program()).unwrap();
    let b = find_offer_address(2, &program()).unwrap();
    assert_ne!(a.0, b.0);
    assert_eq!(find_offer_address(1, &program()).unwrap(), a);
}

#[test]
fn little_endian_bytes() {
    assert_eq!(to_le_bytes(0x0102_0304_0506_0708), vec![8, 7, 6, 5, 4, 3, 2, 1]);
    assert_eq!(to_le_bytes(0), vec![0; 8]);
    assert_eq!(to_le_bytes(u64::MAX), vec![255; 8]);
}

#[test]
fn take_offer_swaps_balances_and_closes_offer() {
    let mut l = funded();
    make_offer(&mut l, &context(), 7, 300, 120).unwrap();
    assert_eq!(take_offer(&mut l, &taker(), 7), Ok(()));
    assert_eq!(l.balance_of(&taker(), &mint_b()), 380);
    assert_eq!(l.balance_of(&maker(), &mint_b()), 120);
    assert_eq!(l.balance_of(&taker(), &mint_a()), 300);
    assert_eq!(l.balance_of(&maker(), &mint_a()), 700);
    assert!(l.record(7).is_none());
}

#[test]
fn take_offer_short_of_wanted_is_insufficient_taker_balance() {
    let mut l = funded();
    make_offer(&mut l, &context(), 7, 300, 501).unwrap();
    assert_eq!(take_offer(&mut l, &taker(), 7), Err(EscrowError::InsufficientTakerBalance));
    assert_eq!(l.balance_of(&taker(), &mint_b()), 500);
    assert_eq!(l.balance_of(&taker(), &mint_a()), 0);
    assert_eq!(l.record(7).unwrap().held, 300);
}

#[test]
fn take_offer_exact_balance() {
    let mut l = funded();
    make_offer(&mut l, &context(), 7, 300, 500).unwrap();
    assert_eq!(take_offer(&mut l, &taker(), 7), Ok(()));
    assert_eq!(l.balance_of(&taker(), &mint_b()), 0);
    assert_eq!(l.balance_of(&maker(), &mint_b()), 500);
}

#[test]
fn take_offer_overflowing_maker_is_refused() {
    let mut l = funded();
    assert!(l.mint_to(&maker(), &mint_b(), u64::MAX));
    make_offer(&mut l, &context(), 7, 300, 1).unwrap();
    assert_eq!(take_offer(&mut l, &taker(), 7), Err(EscrowError::BalanceOverflow));
    assert_eq!(l.balance_of(&taker(), &mint_b()), 500);
    assert!(l.record(7).is_some());
}

#[test]
fn take_offer_by_maker_returns_holding() {
    let mut l = funded();
    assert!(l.mint_to(&maker(), &mint_b(), 50));
    make_offer(&mut l, &context(), 7, 300, 50).unwrap();
    assert_eq!(take_offer(&mut l, &maker(), 7), Ok(()));
    assert_eq!(l.balance_of(&maker(), &mint_b()), 50);
    assert_eq!(l.balance_of(&maker(), &mint_a()), 1000);
}

#[test]
fn refund_offer_returns_holding_to_maker() {
    let mut l = funded();
    make_offer(&mut l, &context(), 7, 300, 120).unwrap();
    assert_eq!(refund_offer(&mut l, &maker(), 7), Ok(()));
    assert_eq!(l.balance_of(&maker(), &mint_a()), 1000);
    assert!(l.record(7).is_none());
}

#[test]
fn refund_offer_by_other_is_unauthorized() {
    let mut l = funded();
    make_offer(&mut l, &context(), 7, 300, 120).unwrap();
    let before = l.record(7).unwrap();
    assert_eq!(refund_offer(&mut l, &taker(), 7), Err(EscrowError::Unauthorized));
    assert_eq!(l.record(7).unwrap(), before);
    assert_eq!(l.balance_of(&maker(), &mint_a()), 700);
    assert_eq!(l.balance_of(&taker(), &mint_a()), 0);
}

#[test]
fn take_then_refund_finds_no_offer() {
    let mut l = funded();
    make_offer(&mut l, &context(), 7, 300, 120).unwrap();
    assert_eq!(take_offer(&mut l, &taker(), 7), Ok(()));
    assert_eq!(refund_offer(&mut l, &maker(), 7), Err(EscrowError::OfferNotFound));
    assert_eq!(l.balance_of(&taker(), &mint_a()), 300);
    assert_eq!(l.balance_of(&maker(), &mint_a()), 700);
}

#[test]
fn refund_then_take_finds_no_offer() {
    let mut l = funded();
    make_offer(&mut l, &context(), 7, 300, 120).unwrap();
    assert_eq!(refund_offer(&mut l, &maker(), 7), Ok(()));
    assert_eq!(take_offer(&mut l, &taker(), 7), Err(EscrowError::OfferNotFound));
    assert_eq!(l.balance_of(&maker(), &mint_a()), 1000);
    assert_eq!(l.balance_of(&taker(), &mint_a()), 0);
    assert_eq!(l.balance_of(&taker(), &mint_b()), 500);
}

#[test]
fn missing_offer_is_not_found() {
    let mut l = funded();
    assert_eq!(take_offer(&mut l, &taker(), 9), Err(EscrowError::OfferNotFound));
    assert_eq!(refund_offer(&mut l, &maker(), 9), Err(EscrowError::OfferNotFound));
    assert_eq!(l.balance_of(&taker(), &mint_b()), 500);
}

#[test]
fn id_can_be_reused_after_close() {
    let mut l = funded();
    make_offer(&mut l, &context(), 7, 300, 120).unwrap();
    refund_offer(&mut l, &maker(), 7).unwrap();
    assert!(make_offer(&mut l, &context(), 7, 200, 5).is_ok());
    assert_eq!(l.record(7).unwrap().held, 200);
}

#[test]
fn mint_to_refuses_overflow() {
    let mut l = Ledger::new(program());
    assert!(l.mint_to(&maker(), &mint_a(), u64::MAX));
    assert!(!l.mint_to(&maker(), &mint_a(), 1));
    assert_eq!(l.balance_of(&maker(), &mint_a()), u64::MAX);
    assert_eq!(l.balance_of(&maker(), &mint_b()), 0);
}

#[test]
fn process_routes_instructions() {
    let mut l = funded();
    let made = process(
        &mut l,
        Instruction::MakeOffer {
            context: context(),
            id: 5,
            token_a_offered_amount: 100,
            token_b_wanted_amount: 40,
        },
    )
    .unwrap()
    .unwrap();
    assert_eq!(made.id, 5);
    assert_eq!(
        process(&mut l, Instruction::RefundOffer { maker: taker(), id: 5 }),
        Err(EscrowError::Unauthorized)
    );
    assert_eq!(process(&mut l, Instruction::TakeOffer { taker: taker(), id: 5 }), Ok(None));
    assert_eq!(l.balance_of(&taker(), &mint_a()), 100);
    assert_eq!(l.balance_of(&maker(), &mint_b()), 40);
    assert_eq!(
        process(&mut l, Instruction::RefundOffer { maker: maker(), id: 5 }),
        Err(EscrowError::OfferNotFound)
    );
}
