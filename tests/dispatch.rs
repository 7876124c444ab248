use piggy::amm::{init_pool, Holder};
use piggy::auction::{self, AuctionBalances};
use piggy::error::ErrorCode;
use piggy::lock::{self, Lamports};

fn with_tag(tag: u8, fields: &[u64]) -> Vec<u8> {
    let mut v = vec![tag];
    for f in fields {
        v.extend_from_slice(&f.to_le_bytes());
    }
    v
}

#[test]
fn amm_process_routes_instructions() {
    let mut a = [0u8; 32];
    a[0] = 1;
    let mut b = [0u8; 32];
    b[0] = 2;
    let mut st = init_pool(a, b, 30, 1, 2, false).unwrap().empty_state();
    let mut user = Holder { a: 10_000_000, b: 10_000_000, lp: 0 };
    assert_eq!(st.process(&mut user, &with_tag(1, &[1_000_000, 4_000_000, 0])), Ok(()));
    assert_eq!(user.lp, 2_000_000);
    let mut swap = vec![3u8, 0];
    swap.extend_from_slice(&1000u64.to_le_bytes());
    swap.extend_from_slice(&0u64.to_le_bytes());
    assert_eq!(st.process(&mut user, &swap), Ok(()));
    assert_eq!((st.reserve_a, st.reserve_b), (1_001_000, 3_996_016));
    assert_eq!(st.process(&mut user, &with_tag(0, &[30])), Err(ErrorCode::AlreadyExists));
    assert_eq!(st.process(&mut user, &vec![9]), Err(ErrorCode::InvalidInstructionData));
    assert_eq!(st.process(&mut user, &with_tag(2, &[2_000_000, 0, 0])), Ok(()));
    assert_eq!((st.reserve_a, st.reserve_b, st.lp_supply), (0, 0, 0));
}

#[test]
fn auction_process_routes_instructions() {
    let seller = [1u8; 32];
    let mut account = None;
    let mut bal = AuctionBalances {
        seller_sell: 100_000_000,
        seller_buy: 0,
        buyer_sell: 0,
        buyer_buy: 200_000_000,
        custody: 0,
    };
    let init = with_tag(0, &[2_000_000, 1_500_000, 1_000, 1_010, 100_000_000]);
    let run = |account: &mut _, bal: &mut _, data: &Vec<u8>, now: u64| {
        auction::process(account, bal, data, seller, [2; 32], [3; 32], 7, seller, now, 6)
    };
    assert_eq!(run(&mut account, &mut bal, &init, 0), Ok(()));
    assert_eq!(bal.custody, 100_000_000);
    assert_eq!(
        run(&mut account, &mut bal, &with_tag(1, &[1_800_000]), 1_002),
        Err(ErrorCode::PriceExceeded)
    );
    assert_eq!(run(&mut account, &mut bal, &with_tag(1, &[1_950_000]), 1_002), Ok(()));
    assert_eq!(bal.seller_buy, 190_000_000);
    assert_eq!(account, None);
    assert_eq!(run(&mut account, &mut bal, &vec![2], 1_003), Err(ErrorCode::Closed));
}

#[test]
fn lock_process_routes_instructions() {
    let now = 1_700_000_000u64;
    let mut account = None;
    let mut bal = Lamports { payer: 10_000_000_000, dst: 0, vault: 0 };
    let data = with_tag(0, &[5_000_000_000, now + 3600]);
    assert_eq!(
        lock::process(&mut account, &mut bal, &data, [1; 32], [2; 32], 255, true, true, now, 1_000),
        Ok(())
    );
    assert_eq!(bal.vault, 5_000_001_000);
    assert_eq!(
        lock::process(&mut account, &mut bal, &vec![1], [1; 32], [2; 32], 255, true, true, now + 60, 1_000),
        Ok(())
    );
    assert_eq!(bal, Lamports { payer: 5_000_000_000, dst: 5_000_000_000, vault: 0 });
    assert_eq!(
        lock::process(&mut account, &mut bal, &vec![7], [1; 32], [2; 32], 255, true, true, now, 1_000),
        Err(ErrorCode::InvalidInstructionData)
    );
}
