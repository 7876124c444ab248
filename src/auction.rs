use vstd::prelude::*;

use crate::address::{address_eq, Address};
use crate::error::ErrorCode;
use crate::instruction::{decode_auction, decode_auction_spec, AuctionInstruction};
use crate::pda::{check_program_address, program_address_of, seeds_three, AUCTION_SEED};

verus! {

/// A Dutch auction, stored at the PDA `["auction", seller, mint_sell, mint_buy]`.
/// Prices are in units of `mint_buy` per whole unit of `mint_sell`.
#[derive(Debug, Clone, Copy, PartialEq, Eq)]
pub struct Auction {
    pub seller: Address,
    pub mint_sell: Address,
    pub mint_buy: Address,
    pub start_price: u64,
    pub end_price: u64,
    pub start_time: u64,
    pub end_time: u64,
    pub sell_amt: u64,
    pub bump: u8,
}

/// Token balances that the auction's instructions touch.
#[derive(Debug, Clone, Copy, PartialEq, Eq, Structural)]
pub struct AuctionBalances {
    /// Seller's account of `mint_sell`.
    pub seller_sell: u64,
    /// Seller's account of `mint_buy`.
    pub seller_buy: u64,
    /// Buyer's account of `mint_sell`.
    pub buyer_sell: u64,
    /// Buyer's account of `mint_buy`.
    pub buyer_buy: u64,
    /// The auction's custody account of `mint_sell`.
    pub custody: u64,
}

impl Auction {
    /// The price falls over a non-empty time window, and something is for sale.
    pub open spec fn wf(self) -> bool {
        &&& self.start_price > self.end_price
        &&& self.start_time < self.end_time
        &&& self.sell_amt > 0
    }

    /// The price at time `t`: `start_price` up to the start, `end_price` from the end,
    /// and in between the linear descent, rounded towards `start_price`.
    pub open spec fn price_spec(self, t: u64) -> int {
        if t <= self.start_time {
            self.start_price as int
        } else if t >= self.end_time {
            self.end_price as int
        } else {
            self.start_price - (self.start_price - self.end_price) * (t - self.start_time) / (
            self.end_time - self.start_time) as int
        }
    }

    /// Address of the auction's state account,
    /// `["auction", seller, mint_sell, mint_buy]` with its bump.
    pub open spec fn address(self, program_id: Address) -> Option<Seq<u8>> {
        program_address_of(
            seq![AUCTION_SEED@, self.seller@, self.mint_sell@, self.mint_buy@, seq![self.bump]],
            program_id@,
        )
    }

    /// Accepts the presented auction account only if it re-derives from the auction's
    /// seller, mints and bump.
    pub fn verify_address(&self, program_id: &Address, presented: &Address) -> (r: Result<
        (),
        ErrorCode,
    >)
        ensures
            r is Ok <==> self.address(*program_id) == Some(presented@),
            r is Err ==> r == Err::<(), ErrorCode>(ErrorCode::InvalidAccount),
    {
        let tag = AUCTION_SEED;
        let seeds = seeds_three(&tag, &self.seller, &self.mint_sell, &self.mint_buy, self.bump);
        check_program_address(&seeds, program_id, presented)
    }

    /// Whether the auction's parameters are well formed.
    pub fn is_valid(&self) -> (r: bool)
        ensures
            r == self.wf(),
    {
        self.start_price > self.end_price && self.start_time < self.end_time && self.sell_amt > 0
    }

    /// The price at time `t`.
    pub fn price_at(&self, t: u64) -> (r: u64)
        requires
            self.wf(),
        ensures
            r == self.price_spec(t),
            self.end_price <= r <= self.start_price,
    {
        if t <= self.start_time {
            self.start_price
        } else if t >= self.end_time {
            self.end_price
        } else {
            let drop: u64 = self.start_price - self.end_price;
            let elapsed: u64 = t - self.start_time;
            let span: u64 = self.end_time - self.start_time;
            proof {
                lemma_fraction_le(drop as int, elapsed as int, span as int);
                assert(drop * elapsed <= u64::MAX * u64::MAX) by (nonlinear_arith)
                    requires
                        drop <= u64::MAX,
                        elapsed <= u64::MAX,
                ;
            }
            let fall: u128 = drop as u128 * elapsed as u128 / span as u128;
            self.start_price - fall as u64
        }
    }
}

proof fn lemma_fraction_le(d: int, e: int, s: int)
    requires
        d >= 0,
        0 <= e <= s,
        s > 0,
    ensures
        0 <= d * e / s <= d,
{
    assert(0 <= d * e <= d * s) by (nonlinear_arith)
        requires
            d >= 0,
            0 <= e <= s,
    ;
    assert(d * e / s <= d * s / s) by (nonlinear_arith)
        requires
            d * e <= d * s,
            s > 0,
    ;
    assert(d * s / s == d) by (nonlinear_arith)
        requires
            s > 0,
    ;
    assert(0 <= d * e / s) by (nonlinear_arith)
        requires
            d * e >= 0,
            s > 0,
    ;
}

/// The price never rises: for `t1 <= t2`, `p(t1) >= p(t2)`.
pub proof fn lemma_price_non_increasing(a: Auction, t1: u64, t2: u64)
    requires
        a.wf(),
        t1 <= t2,
    ensures
        a.price_spec(t1) >= a.price_spec(t2),
{
    let d = a.start_price - a.end_price;
    let s = a.end_time - a.start_time;
    if a.start_time < t1 && t1 < a.end_time && a.start_time < t2 && t2 < a.end_time {
        assert(d * (t1 - a.start_time) <= d * (t2 - a.start_time)) by (nonlinear_arith)
            requires
                d >= 0,
                t1 - a.start_time <= t2 - a.start_time,
        ;
        assert(d * (t1 - a.start_time) / s <= d * (t2 - a.start_time) / s) by (nonlinear_arith)
            requires
                d * (t1 - a.start_time) <= d * (t2 - a.start_time),
                s > 0,
        ;
    } else if a.start_time < t1 && t1 < a.end_time {
        lemma_fraction_le(d, t1 - a.start_time, s);
    } else if a.start_time < t2 && t2 < a.end_time {
        lemma_fraction_le(d, t2 - a.start_time, s);
    }
}

/// `10^d`.
pub open spec fn pow10(d: nat) -> nat
    decreases d,
{
    if d == 0 {
        1
    } else {
        10 * pow10((d - 1) as nat)
    }
}

/// Computes `10^d`, or `None` where it exceeds `u64::MAX`.
pub fn checked_pow10(d: u8) -> (r: Option<u64>)
    ensures
        pow10(d as nat) <= u64::MAX ==> r == Some(pow10(d as nat) as u64),
        pow10(d as nat) > u64::MAX ==> r is None,
{
    let mut acc: u64 = 1;
    let mut i: u8 = 0;
    while i < d
        invariant
            i <= d,
            acc == pow10(i as nat),
        decreases d - i,
    {
        if acc > u64::MAX / 10 {
            proof {
                lemma_pow10_grows(i as nat, d as nat);
            }
            return None;
        }
        acc = acc * 10;
        i = i + 1;
    }
    Some(acc)
}

proof fn lemma_pow10_positive(d: nat)
    ensures
        pow10(d) >= 1,
    decreases d,
{
    if d > 0 {
        lemma_pow10_positive((d - 1) as nat);
    }
}

proof fn lemma_pow10_grows(i: nat, d: nat)
    requires
        i < d,
        pow10(i) > u64::MAX / 10,
    ensures
        pow10(d) > u64::MAX,
    decreases d - i,
{
    if i + 1 < d {
        lemma_pow10_grows(i + 1, d);
    }
}

/// The cost of the whole lot at price `price`: `price · sell_amt / 10^decimals_sell`.
pub open spec fn cost_spec(price: int, sell_amt: u64, decimals_sell: u8) -> int {
    price * sell_amt / pow10(decimals_sell as nat) as int
}

/// Creation of an auction: validates the parameters and moves `sell_amt` from the
/// seller into custody.
pub open spec fn init_spec(
    account: Option<Auction>,
    bal: AuctionBalances,
    params: Auction,
) -> Result<(Option<Auction>, AuctionBalances), ErrorCode> {
    if account is Some || bal.custody != 0 {
        Err(ErrorCode::AlreadyExists)
    } else if !params.wf() {
        Err(ErrorCode::InvalidInstructionData)
    } else if bal.seller_sell < params.sell_amt {
        Err(ErrorCode::MathOverflow)
    } else {
        Ok(
            (
                Some(params),
                AuctionBalances {
                    seller_sell: (bal.seller_sell - params.sell_amt) as u64,
                    custody: params.sell_amt,
                    ..bal
                },
            ),
        )
    }
}

/// Settlement at time `now`: the buyer pays the lot's cost at the current price to the
/// seller, receives the lot from custody, and both auction accounts are closed.
pub open spec fn buy_spec(
    account: Option<Auction>,
    bal: AuctionBalances,
    now: u64,
    max_price: u64,
    decimals_sell: u8,
) -> Result<(Option<Auction>, AuctionBalances, u64), ErrorCode> {
    match account {
        None => Err(ErrorCode::Closed),
        Some(a) => {
            if !a.wf() || bal.custody != a.sell_amt {
                Err(ErrorCode::InvalidAccount)
            } else if now < a.start_time {
                Err(ErrorCode::TooEarly)
            } else if now > a.end_time {
                Err(ErrorCode::TooLate)
            } else if a.price_spec(now) > max_price {
                Err(ErrorCode::PriceExceeded)
            } else {
                let cost = cost_spec(a.price_spec(now), a.sell_amt, decimals_sell);
                if pow10(decimals_sell as nat) > u64::MAX || cost > u64::MAX || bal.buyer_buy
                    < cost || bal.seller_buy + cost > u64::MAX || bal.buyer_sell + a.sell_amt
                    > u64::MAX {
                    Err(ErrorCode::MathOverflow)
                } else {
                    Ok(
                        (
                            None,
                            AuctionBalances {
                                seller_buy: (bal.seller_buy + cost) as u64,
                                buyer_buy: (bal.buyer_buy - cost) as u64,
                                buyer_sell: (bal.buyer_sell + a.sell_amt) as u64,
                                custody: 0,
                                ..bal
                            },
                            cost as u64,
                        ),
                    )
                }
            }
        },
    }
}

/// Cancellation by the seller: the lot returns from custody and both auction accounts
/// are closed.
pub open spec fn cancel_spec(
    account: Option<Auction>,
    bal: AuctionBalances,
    signer: Address,
) -> Result<(Option<Auction>, AuctionBalances), ErrorCode> {
    match account {
        None => Err(ErrorCode::Closed),
        Some(a) => {
            if signer@ != a.seller@ {
                Err(ErrorCode::Unauthorized)
            } else if bal.custody != a.sell_amt {
                Err(ErrorCode::InvalidAccount)
            } else if bal.seller_sell + a.sell_amt > u64::MAX {
                Err(ErrorCode::MathOverflow)
            } else {
                Ok(
                    (
                        None,
                        AuctionBalances {
                            seller_sell: (bal.seller_sell + a.sell_amt) as u64,
                            custody: 0,
                            ..bal
                        },
                    ),
                )
            }
        },
    }
}

/// Creates an auction; on failure nothing changes.
pub fn init(account: &mut Option<Auction>, bal: &mut AuctionBalances, params: Auction) -> (r: Result<
    (),
    ErrorCode,
>)
    ensures
        match init_spec(*old(account), *old(bal), params) {
            Ok((acc, b)) => r is Ok && *final(account) == acc && *final(bal) == b,
            Err(e) => r == Err::<(), ErrorCode>(e) && *final(account) == *old(account) && *final(bal)
                == *old(bal),
        },
{
    if account.is_some() || bal.custody != 0 {
        return Err(ErrorCode::AlreadyExists);
    }
    if !params.is_valid() {
        return Err(ErrorCode::InvalidInstructionData);
    }
    if bal.seller_sell < params.sell_amt {
        return Err(ErrorCode::MathOverflow);
    }
    bal.seller_sell = bal.seller_sell - params.sell_amt;
    bal.custody = params.sell_amt;
    *account = Some(params);
    Ok(())
}

/// Buys the whole lot at the current price, paying at most `max_price` per unit;
/// returns the cost paid. On failure nothing changes.
pub fn buy(
    account: &mut Option<Auction>,
    bal: &mut AuctionBalances,
    now: u64,
    max_price: u64,
    decimals_sell: u8,
) -> (r: Result<u64, ErrorCode>)
    ensures
        match buy_spec(*old(account), *old(bal), now, max_price, decimals_sell) {
            Ok((acc, b, cost)) => r == Ok::<u64, ErrorCode>(cost) && *final(account) == acc
                && *final(bal) == b,
            Err(e) => r == Err::<u64, ErrorCode>(e) && *final(account) == *old(account) && *final(bal)
                == *old(bal),
        },
        r matches Ok(cost) ==> cost <= cost_spec(
            max_price as int,
            old(account)->Some_0.sell_amt,
            decimals_sell,
        ),
{
    let a = match account {
        None => return Err(ErrorCode::Closed),
        Some(a) => *a,
    };
    if !a.is_valid() || bal.custody != a.sell_amt {
        return Err(ErrorCode::InvalidAccount);
    }
    if now < a.start_time {
        return Err(ErrorCode::TooEarly);
    }
    if now > a.end_time {
        return Err(ErrorCode::TooLate);
    }
    let price = a.price_at(now);
    if price > max_price {
        return Err(ErrorCode::PriceExceeded);
    }
    let unit = match checked_pow10(decimals_sell) {
        None => return Err(ErrorCode::MathOverflow),
        Some(u) => u,
    };
    proof {
        lemma_pow10_positive(decimals_sell as nat);
        let unit = pow10(decimals_sell as nat) as int;
        assert(price * a.sell_amt / unit <= max_price * a.sell_amt / unit) by (nonlinear_arith)
            requires
                0 <= price <= max_price,
                a.sell_amt >= 0,
                unit > 0,
        ;
    }
    assert(price * a.sell_amt <= u64::MAX * u64::MAX) by (nonlinear_arith)
        requires
            price <= u64::MAX,
            a.sell_amt <= u64::MAX,
    ;
    let cost: u128 = price as u128 * a.sell_amt as u128 / unit as u128;
    if cost > u64::MAX as u128 {
        return Err(ErrorCode::MathOverflow);
    }
    let cost: u64 = cost as u64;
    if bal.buyer_buy < cost || bal.seller_buy > u64::MAX - cost || bal.buyer_sell > u64::MAX
        - a.sell_amt {
        return Err(ErrorCode::MathOverflow);
    }
    bal.buyer_buy = bal.buyer_buy - cost;
    bal.seller_buy = bal.seller_buy + cost;
    bal.buyer_sell = bal.buyer_sell + a.sell_amt;
    bal.custody = 0;
    *account = None;
    Ok(cost)
}

/// Cancels the auction on the seller's signature; on failure nothing changes.
pub fn cancel(account: &mut Option<Auction>, bal: &mut AuctionBalances, signer: Address) -> (r:
    Result<(), ErrorCode>)
    ensures
        match cancel_spec(*old(account), *old(bal), signer) {
            Ok((acc, b)) => r is Ok && *final(account) == acc && *final(bal) == b,
            Err(e) => r == Err::<(), ErrorCode>(e) && *final(account) == *old(account) && *final(bal)
                == *old(bal),
        },
{
    let a = match account {
        None => return Err(ErrorCode::Closed),
        Some(a) => *a,
    };
    if !address_eq(&signer, &a.seller) {
        return Err(ErrorCode::Unauthorized);
    }
    if bal.custody != a.sell_amt {
        return Err(ErrorCode::InvalidAccount);
    }
    if bal.seller_sell > u64::MAX - a.sell_amt {
        return Err(ErrorCode::MathOverflow);
    }
    bal.seller_sell = bal.seller_sell + a.sell_amt;
    bal.custody = 0;
    *account = None;
    Ok(())
}

/// What the auction program does with the instruction bytes `data`. The auction's
/// parties, mints and bump come from the presented accounts, `signer` is the account that
/// signed, and `decimals_sell` is read from the sell mint.
pub open spec fn process_spec(
    account: Option<Auction>,
    bal: AuctionBalances,
    data: Seq<u8>,
    seller: Address,
    mint_sell: Address,
    mint_buy: Address,
    bump: u8,
    signer: Address,
    now: u64,
    decimals_sell: u8,
) -> Result<(Option<Auction>, AuctionBalances), ErrorCode> {
    match decode_auction_spec(data) {
        Err(e) => Err(e),
        Ok(AuctionInstruction::Init { start_price, end_price, start_time, end_time, sell_amt }) => {
            init_spec(
                account,
                bal,
                Auction {
                    seller,
                    mint_sell,
                    mint_buy,
                    start_price,
                    end_price,
                    start_time,
                    end_time,
                    sell_amt,
                    bump,
                },
            )
        },
        Ok(AuctionInstruction::Buy { max_price }) => match buy_spec(
            account,
            bal,
            now,
            max_price,
            decimals_sell,
        ) {
            Ok((acc, b, _)) => Ok((acc, b)),
            Err(e) => Err(e),
        },
        Ok(AuctionInstruction::Cancel) => cancel_spec(account, bal, signer),
    }
}

/// Entry point of the auction program: parses `data` and runs the instruction it names;
/// on failure nothing changes.
pub fn process(
    account: &mut Option<Auction>,
    bal: &mut AuctionBalances,
    data: &Vec<u8>,
    seller: Address,
    mint_sell: Address,
    mint_buy: Address,
    bump: u8,
    signer: Address,
    now: u64,
    decimals_sell: u8,
) -> (r: Result<(), ErrorCode>)
    ensures
        match process_spec(
            *old(account),
            *old(bal),
            data@,
            seller,
            mint_sell,
            mint_buy,
            bump,
            signer,
            now,
            decimals_sell,
        ) {
            Ok((acc, b)) => r is Ok && *final(account) == acc && *final(bal) == b,
            Err(e) => r == Err::<(), ErrorCode>(e) && *final(account) == *old(account) && *final(bal)
                == *old(bal),
        },
{
    match decode_auction(data) {
        Err(e) => Err(e),
        Ok(AuctionInstruction::Init { start_price, end_price, start_time, end_time, sell_amt }) => {
            let params = Auction {
                seller,
                mint_sell,
                mint_buy,
                start_price,
                end_price,
                start_time,
                end_time,
                sell_amt,
                bump,
            };
            init(account, bal, params)
        },
        Ok(AuctionInstruction::Buy { max_price }) => match buy(
            account,
            bal,
            now,
            max_price,
            decimals_sell,
        ) {
            Ok(_) => Ok(()),
            Err(e) => Err(e),
        },
        Ok(AuctionInstruction::Cancel) => cancel(account, bal, signer),
    }
}

/// Cancelling right after a successful creation succeeds, hands the seller back exactly
/// `sell_amt`, empties custody and closes the auction: every balance is as before.
pub proof fn lemma_cancel_after_init(account: Option<Auction>, bal: AuctionBalances, params: Auction)
    requires
        init_spec(account, bal, params) is Ok,
    ensures
        ({
            let (acc1, bal1) = init_spec(account, bal, params)->Ok_0;
            let c = cancel_spec(acc1, bal1, params.seller);
            &&& c is Ok
            &&& c->Ok_0.0 is None
            &&& c->Ok_0.1.custody == 0
            &&& c->Ok_0.1.seller_sell == bal1.seller_sell + params.sell_amt
            &&& c->Ok_0.1 == bal
        }),
{
}

} // verus!
