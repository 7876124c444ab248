use piggy::amm::Side;
use piggy::error::ErrorCode;
use piggy::instruction::{
    decode_amm, decode_auction, decode_lock, read_u64, AmmInstruction,
    AuctionInstruction, LockInstruction,
};

fn with_tag(tag: u8, fields: &[u64]) -> Vec<u8> {
    let mut v = vec![tag];
    for f in fields {
        v.extend_from_slice(&f.to_le_bytes());
    }
    v
}

#[test]
fn reads_little_endian() {
    let data = vec![9, 0x01, 0x02, 0x03, 0x04, 0x05, 0x06, 0x07, 0x08];
    assert_eq!(read_u64(&data, 1), 0x0807_0605_0403_0201);
    assert_eq!(read_u64(&vec![0xff; 8], 0), u64::MAX);
}

#[test]
fn decodes_amm_instructions() {
    assert_eq!(decode_amm(&with_tag(0, &[30])), Ok(AmmInstruction::InitPool { fee_bps: 30 }));
    assert_eq!(
        decode_amm(&with_tag(1, &[1_000_000, 4_000_000, 7])),
        Ok(AmmInstruction::Deposit { amount_a_max: 1_000_000, amount_b_max: 4_000_000, lp_min: 7 })
    );
    assert_eq!(
        decode_amm(&with_tag(2, &[5, 6, u64::MAX])),
        Ok(AmmInstruction::Withdraw { lp_amount: 5, min_a: 6, min_b: u64::MAX })
    );
    let mut swap = vec![3u8, 1];
    swap.extend_from_slice(&1000u64.to_le_bytes());
    swap.extend_from_slice(&0u64.to_le_bytes());
    assert_eq!(
        decode_amm(&swap),
        Ok(AmmInstruction::Swap { side: Side::BtoA, amount_in: 1000, min_out: 0 })
    );
    swap[1] = 0;
    assert_eq!(
        decode_amm(&swap),
        Ok(AmmInstruction::Swap { side: Side::AtoB, amount_in: 1000, min_out: 0 })
    );
}

#[test]
fn rejects_malformed_amm_instructions() {
    assert_eq!(decode_amm(&vec![]), Err(ErrorCode::InvalidInstructionData));
    assert_eq!(decode_amm(&vec![4]), Err(ErrorCode::InvalidInstructionData));
    assert_eq!(decode_amm(&vec![0, 1]), Err(ErrorCode::InvalidInstructionData));
    let mut long = with_tag(1, &[1, 2, 3]);
    long.push(0);
    assert_eq!(decode_amm(&long), Err(ErrorCode::InvalidInstructionData));
    let mut bad_side = vec![3u8, 2];
    bad_side.extend_from_slice(&[0u8; 16]);
    assert_eq!(decode_amm(&bad_side), Err(ErrorCode::InvalidInstructionData));
}

#[test]
fn decodes_auction_instructions() {
    assert_eq!(
        decode_auction(&with_tag(0, &[2_000_000, 1_500_000, 1_000, 1_010, 100_000_000])),
        Ok(AuctionInstruction::Init {
            start_price: 2_000_000,
            end_price: 1_500_000,
            start_time: 1_000,
            end_time: 1_010,
            sell_amt: 100_000_000,
        })
    );
    assert_eq!(
        decode_auction(&with_tag(1, &[1_950_000])),
        Ok(AuctionInstruction::Buy { max_price: 1_950_000 })
    );
    assert_eq!(decode_auction(&vec![2]), Ok(AuctionInstruction::Cancel));
    assert_eq!(decode_auction(&vec![3]), Err(ErrorCode::InvalidInstructionData));
    assert_eq!(decode_auction(&with_tag(1, &[])), Err(ErrorCode::InvalidInstructionData));
}

#[test]
fn decodes_lock_instructions() {
    assert_eq!(
        decode_lock(&with_tag(0, &[5_000_000_000, 1_700_003_600])),
        Ok(LockInstruction::Lock { amt: 5_000_000_000, exp: 1_700_003_600 })
    );
    assert_eq!(decode_lock(&vec![1]), Ok(LockInstruction::Unlock));
    assert_eq!(decode_lock(&vec![1, 0]), Err(ErrorCode::InvalidInstructionData));
    assert_eq!(decode_lock(&vec![2]), Err(ErrorCode::InvalidInstructionData));
}
