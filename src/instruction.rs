use vstd::prelude::*;

use crate::amm::Side;
use crate::error::ErrorCode;

verus! {

/// Unsigned little-endian value of a byte string.
pub open spec fn le_value(b: Seq<u8>) -> nat
    decreases b.len(),
{
    if b.len() == 0 {
        0
    } else {
        (b[0] + 256 * le_value(b.drop_first())) as nat
    }
}

pub open spec fn pow256(n: nat) -> nat
    decreases n,
{
    if n == 0 {
        1
    } else {
        256 * pow256((n - 1) as nat)
    }
}

proof fn lemma_pow256_mono(a: nat, b: nat)
    requires
        a <= b,
    ensures
        pow256(a) <= pow256(b),
    decreases b,
{
    if a < b {
        lemma_pow256_mono(a, (b - 1) as nat);
    }
}

/// The `u64` stored little-endian at `d[off..off + 8]`.
pub open spec fn u64_at(d: Seq<u8>, off: int) -> u64 {
    le_value(d.subrange(off, off + 8)) as u64
}


/// Reads the little-endian `u64` at `off`.
pub fn read_u64(data: &Vec<u8>, off: usize) -> (r: u64)
    requires
        off + 8 <= data@.len(),
    ensures
        r == le_value(data@.subrange(off as int, off + 8)),
{
    let n = data.len();
    let mut v: u64 = 0;
    let mut i: usize = 8;
    proof {
        assert(data@.subrange(off + 8, off + 8) =~= Seq::<u8>::empty());
    }
    while i > 0
        invariant
            0 <= i <= 8,
            off + 8 <= data@.len(),
            n == data@.len(),
            v == le_value(data@.subrange(off + i, off + 8)),
            v < pow256((8 - i) as nat),
        decreases i,
    {
        i = i - 1;
        proof {
            lemma_pow256_mono((7 - i) as nat, 7);
            reveal_with_fuel(pow256, 8);
            assert(pow256(7) == 0x100000000000000);
            let s = data@.subrange(off + i, off + 8);
            assert(s.drop_first() =~= data@.subrange(off + i + 1, off + 8));
            assert(s[0] == data@[off + i]);
        }
        v = data[off + i] as u64 + 256 * v;
    }
    v
}

/// An instruction of the AMM program.
#[derive(Debug, Clone, Copy, PartialEq, Eq, Structural)]
pub enum AmmInstruction {
    InitPool { fee_bps: u64 },
    Deposit { amount_a_max: u64, amount_b_max: u64, lp_min: u64 },
    Withdraw { lp_amount: u64, min_a: u64, min_b: u64 },
    Swap { side: Side, amount_in: u64, min_out: u64 },
}

/// An instruction of the auction program.
#[derive(Debug, Clone, Copy, PartialEq, Eq, Structural)]
pub enum AuctionInstruction {
    Init { start_price: u64, end_price: u64, start_time: u64, end_time: u64, sell_amt: u64 },
    Buy { max_price: u64 },
    Cancel,
}

/// An instruction of the lock program.
#[derive(Debug, Clone, Copy, PartialEq, Eq, Structural)]
pub enum LockInstruction {
    Lock { amt: u64, exp: u64 },
    Unlock,
}

/// AMM wire format: tag `0` InitPool (one `u64`), `1` Deposit, `2` Withdraw (three `u64`
/// each), `3` Swap (side byte `0` A→B or `1` B→A, then two `u64`); nothing may follow.
pub open spec fn decode_amm_spec(d: Seq<u8>) -> Result<AmmInstruction, ErrorCode> {
    if d.len() == 9 && d[0] == 0 {
        Ok(AmmInstruction::InitPool { fee_bps: u64_at(d, 1) })
    } else if d.len() == 25 && d[0] == 1 {
        Ok(
            AmmInstruction::Deposit {
                amount_a_max: u64_at(d, 1),
                amount_b_max: u64_at(d, 9),
                lp_min: u64_at(d, 17),
            },
        )
    } else if d.len() == 25 && d[0] == 2 {
        Ok(
            AmmInstruction::Withdraw {
                lp_amount: u64_at(d, 1),
                min_a: u64_at(d, 9),
                min_b: u64_at(d, 17),
            },
        )
    } else if d.len() == 18 && d[0] == 3 && d[1] <= 1 {
        Ok(
            AmmInstruction::Swap {
                side: if d[1] == 0 {
                    Side::AtoB
                } else {
                    Side::BtoA
                },
                amount_in: u64_at(d, 2),
                min_out: u64_at(d, 10),
            },
        )
    } else {
        Err(ErrorCode::InvalidInstructionData)
    }
}

/// Auction wire format: tag `0` Init (five `u64`), `1` Buy (one `u64`), `2` Cancel.
pub open spec fn decode_auction_spec(d: Seq<u8>) -> Result<AuctionInstruction, ErrorCode> {
    if d.len() == 41 && d[0] == 0 {
        Ok(
            AuctionInstruction::Init {
                start_price: u64_at(d, 1),
                end_price: u64_at(d, 9),
                start_time: u64_at(d, 17),
                end_time: u64_at(d, 25),
                sell_amt: u64_at(d, 33),
            },
        )
    } else if d.len() == 9 && d[0] == 1 {
        Ok(AuctionInstruction::Buy { max_price: u64_at(d, 1) })
    } else if d.len() == 1 && d[0] == 2 {
        Ok(AuctionInstruction::Cancel)
    } else {
        Err(ErrorCode::InvalidInstructionData)
    }
}

/// Lock wire format: tag `0` Lock (`amt`, `exp`), `1` Unlock.
pub open spec fn decode_lock_spec(d: Seq<u8>) -> Result<LockInstruction, ErrorCode> {
    if d.len() == 17 && d[0] == 0 {
        Ok(LockInstruction::Lock { amt: u64_at(d, 1), exp: u64_at(d, 9) })
    } else if d.len() == 1 && d[0] == 1 {
        Ok(LockInstruction::Unlock)
    } else {
        Err(ErrorCode::InvalidInstructionData)
    }
}

/// Parses an AMM instruction.
pub fn decode_amm(data: &Vec<u8>) -> (r: Result<AmmInstruction, ErrorCode>)
    ensures
        r == decode_amm_spec(data@),
{
    let n = data.len();
    if n == 9 && data[0] == 0 {
        Ok(AmmInstruction::InitPool { fee_bps: read_u64(data, 1) })
    } else if n == 25 && data[0] == 1 {
        Ok(
            AmmInstruction::Deposit {
                amount_a_max: read_u64(data, 1),
                amount_b_max: read_u64(data, 9),
                lp_min: read_u64(data, 17),
            },
        )
    } else if n == 25 && data[0] == 2 {
        Ok(
            AmmInstruction::Withdraw {
                lp_amount: read_u64(data, 1),
                min_a: read_u64(data, 9),
                min_b: read_u64(data, 17),
            },
        )
    } else if n == 18 && data[0] == 3 && data[1] <= 1 {
        let side = if data[1] == 0 {
            Side::AtoB
        } else {
            Side::BtoA
        };
        Ok(AmmInstruction::Swap { side, amount_in: read_u64(data, 2), min_out: read_u64(data, 10) })
    } else {
        Err(ErrorCode::InvalidInstructionData)
    }
}

/// Parses an auction instruction.
pub fn decode_auction(data: &Vec<u8>) -> (r: Result<AuctionInstruction, ErrorCode>)
    ensures
        r == decode_auction_spec(data@),
{
    let n = data.len();
    if n == 41 && data[0] == 0 {
        Ok(
            AuctionInstruction::Init {
                start_price: read_u64(data, 1),
                end_price: read_u64(data, 9),
                start_time: read_u64(data, 17),
                end_time: read_u64(data, 25),
                sell_amt: read_u64(data, 33),
            },
        )
    } else if n == 9 && data[0] == 1 {
        Ok(AuctionInstruction::Buy { max_price: read_u64(data, 1) })
    } else if n == 1 && data[0] == 2 {
        Ok(AuctionInstruction::Cancel)
    } else {
        Err(ErrorCode::InvalidInstructionData)
    }
}

/// Parses a lock instruction.
pub fn decode_lock(data: &Vec<u8>) -> (r: Result<LockInstruction, ErrorCode>)
    ensures
        r == decode_lock_spec(data@),
{
    let n = data.len();
    if n == 17 && data[0] == 0 {
        Ok(LockInstruction::Lock { amt: read_u64(data, 1), exp: read_u64(data, 9) })
    } else if n == 1 && data[0] == 1 {
        Ok(LockInstruction::Unlock)
    } else {
        Err(ErrorCode::InvalidInstructionData)
    }
}

} // verus!
