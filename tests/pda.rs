use anchor_lang::prelude::Pubkey;
use piggy::amm::init_pool;
use piggy::auction::Auction;
use piggy::error::ErrorCode;
use piggy::lock::Lock;

fn program() -> [u8; 32] {
    [42u8; 32]
}

fn find(seeds: &[&[u8]]) -> ([u8; 32], u8) {
    let (k, bump) = Pubkey::find_program_address(seeds, &Pubkey::new_from_array(program()));
    (k.to_bytes(), bump)
}

#[test]
fn lock_address_re_derives() {
    let payer = [1u8; 32];
    let dst = [2u8; 32];
    let (pda, bump) = find(&[b"lock", &payer, &dst]);
    let l = Lock { payer, dst, amt: 1, exp: 2, bump };
    assert_eq!(l.verify_address(&program(), &pda), Ok(()));
    assert_eq!(l.verify_address(&program(), &payer), Err(ErrorCode::InvalidAccount));
    let swapped = Lock { payer: dst, dst: payer, ..l };
    assert_eq!(swapped.verify_address(&program(), &pda), Err(ErrorCode::InvalidAccount));
    assert_eq!(l.verify_address(&[43u8; 32], &pda), Err(ErrorCode::InvalidAccount));
}

#[test]
fn auction_address_re_derives() {
    let seller = [3u8; 32];
    let mint_sell = [4u8; 32];
    let mint_buy = [5u8; 32];
    let (pda, bump) = find(&[b"auction", &seller, &mint_sell, &mint_buy]);
    let a = Auction {
        seller,
        mint_sell,
        mint_buy,
        start_price: 2,
        end_price: 1,
        start_time: 0,
        end_time: 1,
        sell_amt: 1,
        bump,
    };
    assert_eq!(a.verify_address(&program(), &pda), Ok(()));
    let other = Auction { mint_buy: mint_sell, ..a };
    assert_eq!(other.verify_address(&program(), &pda), Err(ErrorCode::InvalidAccount));
}

#[test]
fn pool_addresses_re_derive() {
    let mint_a = [6u8; 32];
    let mint_b = [7u8; 32];
    let (pool_pda, pool_bump) = find(&[b"pool", &mint_a, &mint_b]);
    let (mint_pda, mint_bump) = find(&[b"mint_pool", &mint_a, &mint_b]);
    let p = init_pool(mint_a, mint_b, 30, pool_bump, mint_bump, false).unwrap();
    assert_eq!(p.verify_addresses(&program(), &pool_pda, &mint_pda), Ok(()));
    assert_eq!(p.verify_addresses(&program(), &mint_pda, &pool_pda), Err(ErrorCode::InvalidAccount));
    assert_eq!(p.verify_addresses(&program(), &pool_pda, &pool_pda), Err(ErrorCode::InvalidAccount));
}
