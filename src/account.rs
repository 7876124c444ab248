use vstd::prelude::*;

use crate::address::Address;
use crate::amm::Pool;
use crate::auction::Auction;
use crate::error::ErrorCode;
use crate::instruction::{le_value, pow256, read_u64, u64_at};
use crate::lock::Lock;

verus! {

/// SHA-256 digest of a byte string.
pub uninterp spec fn sha256_of(data: Seq<u8>) -> Seq<u8>;

/// Relies on solana_program's `hash::hash` (as anchor_lang exports it): the SHA-256
/// digest of the bytes, which depends on them alone.
#[verifier::external_body]
fn sha256(data: &Vec<u8>) -> (r: [u8; 32])
    ensures
        r@ == sha256_of(data@),
{
    anchor_lang::solana_program::hash::hash(data.as_slice()).to_bytes()
}

/// Namespace of account discriminators: `"account:"`.
pub const ACCOUNT_NAMESPACE: [u8; 8] = [97, 99, 99, 111, 117, 110, 116, 58];

/// Type name of the pool account: `"Pool"`.
pub const POOL_NAME: [u8; 4] = [80, 111, 111, 108];

/// Type name of the auction account: `"Auction"`.
pub const AUCTION_NAME: [u8; 7] = [65, 117, 99, 116, 105, 111, 110];

/// Type name of the lock account: `"Lock"`.
pub const LOCK_NAME: [u8; 4] = [76, 111, 99, 107];

/// The 8 bytes that open every account of the type called `name`: the start of the
/// SHA-256 digest of `"account:" ++ name`.
pub open spec fn discriminator_of(name: Seq<u8>) -> Seq<u8> {
    sha256_of(ACCOUNT_NAMESPACE@ + name).subrange(0, 8)
}

/// `n` little-endian bytes of `x`, least significant first.
pub open spec fn le_bytes(x: nat, n: nat) -> Seq<u8>
    decreases n,
{
    if n == 0 {
        seq![]
    } else {
        seq![(x % 256) as u8] + le_bytes(x / 256, (n - 1) as nat)
    }
}

/// Reading back `n` little-endian bytes of `x` gives `x`, when `x` fits in them.
pub proof fn lemma_le_round_trip(x: nat, n: nat)
    requires
        x < pow256(n),
    ensures
        le_value(le_bytes(x, n)) == x,
        le_bytes(x, n).len() == n,
    decreases n,
{
    if n > 0 {
        let p = pow256((n - 1) as nat);
        assert(x / 256 < p) by (nonlinear_arith)
            requires
                x < 256 * p,
        ;
        lemma_le_round_trip(x / 256, (n - 1) as nat);
        let b = le_bytes(x, n);
        assert(b.drop_first() =~= le_bytes(x / 256, (n - 1) as nat));
    }
}

proof fn lemma_u64_round_trip(x: u64)
    ensures
        le_value(le_bytes(x as nat, 8)) == x,
        le_bytes(x as nat, 8).len() == 8,
{
    reveal_with_fuel(pow256, 9);
    lemma_le_round_trip(x as nat, 8);
}

/// Appends a byte string.
pub fn write_bytes(out: &mut Vec<u8>, s: &[u8])
    ensures
        final(out)@ == old(out)@ + s@,
{
    let mut i: usize = 0;
    while i < s.len()
        invariant
            0 <= i <= s@.len(),
            out@ == old(out)@ + s@.subrange(0, i as int),
        decreases s@.len() - i,
    {
        out.push(s[i]);
        i = i + 1;
        assert(out@ =~= old(out)@ + s@.subrange(0, i as int));
    }
    assert(s@.subrange(0, s@.len() as int) =~= s@);
}

/// Appends the `n` low bytes of `v`, least significant first.
pub fn write_le(out: &mut Vec<u8>, v: u64, n: u8)
    ensures
        final(out)@ == old(out)@ + le_bytes(v as nat, n as nat),
    decreases n,
{
    if n == 0 {
        assert(old(out)@ + le_bytes(v as nat, 0) =~= old(out)@);
    } else {
        out.push((v % 256) as u8);
        write_le(out, v / 256, n - 1);
        assert(final(out)@ =~= old(out)@ + le_bytes(v as nat, n as nat));
    }
}

/// Reads the 32-byte address at `off`.
pub fn read_address(data: &Vec<u8>, off: usize) -> (r: Address)
    requires
        off + 32 <= data@.len(),
    ensures
        r@ == data@.subrange(off as int, off + 32),
{
    let n = data.len();
    let mut a: Address = [0u8; 32];
    let mut i: usize = 0;
    while i < 32
        invariant
            0 <= i <= 32,
            off + 32 <= data@.len(),
            n == data@.len(),
            a@.len() == 32,
            forall|j: int| 0 <= j < i ==> a@[j] == data@[off + j],
        decreases 32 - i,
    {
        a[i] = data[off + i];
        i = i + 1;
    }
    assert(a@ =~= data@.subrange(off as int, off + 32));
    a
}

/// The discriminator of the type called `name`.
pub fn discriminator(name: &[u8]) -> (r: Vec<u8>)
    ensures
        r@ == discriminator_of(name@),
        r@.len() == 8,
{
    let mut preimage: Vec<u8> = Vec::new();
    let namespace = ACCOUNT_NAMESPACE;
    write_bytes(&mut preimage, &namespace);
    write_bytes(&mut preimage, name);
    let digest = sha256(&preimage);
    let mut r: Vec<u8> = Vec::new();
    let mut i: usize = 0;
    while i < 8
        invariant
            0 <= i <= 8,
            digest@.len() == 32,
            r@ == digest@.subrange(0, i as int),
        decreases 8 - i,
    {
        r.push(digest[i]);
        i = i + 1;
        assert(r@ =~= digest@.subrange(0, i as int));
    }
    r
}

/// Whether `data` opens with `prefix`.
pub fn starts_with(data: &Vec<u8>, prefix: &Vec<u8>) -> (r: bool)
    ensures
        r == (prefix@.len() <= data@.len() && data@.subrange(0, prefix@.len() as int) == prefix@),
{
    if prefix.len() > data.len() {
        return false;
    }
    let mut i: usize = 0;
    while i < prefix.len()
        invariant
            0 <= i <= prefix@.len() <= data@.len(),
            forall|j: int| 0 <= j < i ==> data@[j] == prefix@[j],
        decreases prefix@.len() - i,
    {
        if data[i] != prefix[i] {
            assert(data@.subrange(0, prefix@.len() as int)[i as int] != prefix@[i as int]);
            return false;
        }
        i = i + 1;
    }
    assert(data@.subrange(0, prefix@.len() as int) =~= prefix@);
    true
}

/// Stored form of a lock: discriminator, `payer`, `dst`, `amt`, `exp`, `bump`.
pub open spec fn lock_layout(l: Lock) -> Seq<u8> {
    discriminator_of(LOCK_NAME@) + l.payer@ + l.dst@ + le_bytes(l.amt as nat, 8) + le_bytes(
        l.exp as nat,
        8,
    ) + seq![l.bump]
}

/// Stored form of an auction: discriminator, `seller`, `mint_sell`, `mint_buy`, the five
/// amounts and times in field order, `bump`.
pub open spec fn auction_layout(a: Auction) -> Seq<u8> {
    discriminator_of(AUCTION_NAME@) + a.seller@ + a.mint_sell@ + a.mint_buy@ + le_bytes(
        a.start_price as nat,
        8,
    ) + le_bytes(a.end_price as nat, 8) + le_bytes(a.start_time as nat, 8) + le_bytes(
        a.end_time as nat,
        8,
    ) + le_bytes(a.sell_amt as nat, 8) + seq![a.bump]
}

/// Stored form of a pool: discriminator, `mint_a`, `mint_b`, `fee_bps`, the two bumps.
pub open spec fn pool_layout(p: Pool) -> Seq<u8> {
    discriminator_of(POOL_NAME@) + p.mint_a@ + p.mint_b@ + le_bytes(p.fee_bps as nat, 8) + seq![
        p.bump_pool,
        p.bump_mint_pool,
    ]
}

/// Serialises a lock account.
pub fn encode_lock(l: &Lock) -> (r: Vec<u8>)
    ensures
        r@ == lock_layout(*l),
{
    let name = LOCK_NAME;
    let mut r = discriminator(&name);
    write_bytes(&mut r, &l.payer);
    write_bytes(&mut r, &l.dst);
    write_le(&mut r, l.amt, 8);
    write_le(&mut r, l.exp, 8);
    r.push(l.bump);
    r
}

/// Serialises an auction account.
pub fn encode_auction(a: &Auction) -> (r: Vec<u8>)
    ensures
        r@ == auction_layout(*a),
{
    let name = AUCTION_NAME;
    let mut r = discriminator(&name);
    write_bytes(&mut r, &a.seller);
    write_bytes(&mut r, &a.mint_sell);
    write_bytes(&mut r, &a.mint_buy);
    write_le(&mut r, a.start_price, 8);
    write_le(&mut r, a.end_price, 8);
    write_le(&mut r, a.start_time, 8);
    write_le(&mut r, a.end_time, 8);
    write_le(&mut r, a.sell_amt, 8);
    r.push(a.bump);
    r
}

/// Serialises a pool account.
pub fn encode_pool(p: &Pool) -> (r: Vec<u8>)
    ensures
        r@ == pool_layout(*p),
{
    let name = POOL_NAME;
    let mut r = discriminator(&name);
    write_bytes(&mut r, &p.mint_a);
    write_bytes(&mut r, &p.mint_b);
    write_le(&mut r, p.fee_bps, 8);
    r.push(p.bump_pool);
    r.push(p.bump_mint_pool);
    r
}

/// Parses a lock account: its length and discriminator must match.
pub fn decode_lock_account(data: &Vec<u8>) -> (r: Result<Lock, ErrorCode>)
    ensures
        r is Ok <==> data@.len() == 89 && data@.subrange(0, 8) == discriminator_of(LOCK_NAME@),
        r is Err ==> r == Err::<Lock, ErrorCode>(ErrorCode::InvalidAccount),
        r matches Ok(l) ==> {
            &&& l.payer@ == data@.subrange(8, 40)
            &&& l.dst@ == data@.subrange(40, 72)
            &&& l.amt == u64_at(data@, 72)
            &&& l.exp == u64_at(data@, 80)
            &&& l.bump == data@[88]
        },
{
    let name = LOCK_NAME;
    let disc = discriminator(&name);
    if data.len() != 89 || !starts_with(data, &disc) {
        return Err(ErrorCode::InvalidAccount);
    }
    Ok(
        Lock {
            payer: read_address(data, 8),
            dst: read_address(data, 40),
            amt: read_u64(data, 72),
            exp: read_u64(data, 80),
            bump: data[88],
        },
    )
}

/// Parses an auction account: its length and discriminator must match.
pub fn decode_auction_account(data: &Vec<u8>) -> (r: Result<Auction, ErrorCode>)
    ensures
        r is Ok <==> data@.len() == 145 && data@.subrange(0, 8) == discriminator_of(
            AUCTION_NAME@,
        ),
        r is Err ==> r == Err::<Auction, ErrorCode>(ErrorCode::InvalidAccount),
        r matches Ok(a) ==> {
            &&& a.seller@ == data@.subrange(8, 40)
            &&& a.mint_sell@ == data@.subrange(40, 72)
            &&& a.mint_buy@ == data@.subrange(72, 104)
            &&& a.start_price == u64_at(data@, 104)
            &&& a.end_price == u64_at(data@, 112)
            &&& a.start_time == u64_at(data@, 120)
            &&& a.end_time == u64_at(data@, 128)
            &&& a.sell_amt == u64_at(data@, 136)
            &&& a.bump == data@[144]
        },
{
    let name = AUCTION_NAME;
    let disc = discriminator(&name);
    if data.len() != 145 || !starts_with(data, &disc) {
        return Err(ErrorCode::InvalidAccount);
    }
    Ok(
        Auction {
            seller: read_address(data, 8),
            mint_sell: read_address(data, 40),
            mint_buy: read_address(data, 72),
            start_price: read_u64(data, 104),
            end_price: read_u64(data, 112),
            start_time: read_u64(data, 120),
            end_time: read_u64(data, 128),
            sell_amt: read_u64(data, 136),
            bump: data[144],
        },
    )
}

/// Parses a pool account: its length and discriminator must match.
pub fn decode_pool_account(data: &Vec<u8>) -> (r: Result<Pool, ErrorCode>)
    ensures
        r is Ok <==> data@.len() == 82 && data@.subrange(0, 8) == discriminator_of(POOL_NAME@),
        r is Err ==> r == Err::<Pool, ErrorCode>(ErrorCode::InvalidAccount),
        r matches Ok(p) ==> {
            &&& p.mint_a@ == data@.subrange(8, 40)
            &&& p.mint_b@ == data@.subrange(40, 72)
            &&& p.fee_bps == u64_at(data@, 72)
            &&& p.bump_pool == data@[80]
            &&& p.bump_mint_pool == data@[81]
        },
{
    let name = POOL_NAME;
    let disc = discriminator(&name);
    if data.len() != 82 || !starts_with(data, &disc) {
        return Err(ErrorCode::InvalidAccount);
    }
    Ok(
        Pool {
            mint_a: read_address(data, 8),
            mint_b: read_address(data, 40),
            fee_bps: read_u64(data, 72),
            bump_pool: data[80],
            bump_mint_pool: data[81],
        },
    )
}

/// A stored lock reads back as the same lock: the layout has the length and the
/// discriminator that `decode_lock_account` checks, and each field stands at its offset.
/// (A digest has 32 bytes, so a discriminator has 8.)
pub proof fn lemma_lock_layout_round_trip(l: Lock)
    requires
        discriminator_of(LOCK_NAME@).len() == 8,
    ensures
        ({
            let d = lock_layout(l);
            &&& d.len() == 89
            &&& d.subrange(0, 8) == discriminator_of(LOCK_NAME@)
            &&& d.subrange(8, 40) == l.payer@
            &&& d.subrange(40, 72) == l.dst@
            &&& u64_at(d, 72) == l.amt
            &&& u64_at(d, 80) == l.exp
            &&& d[88] == l.bump
        }),
{
    lemma_u64_round_trip(l.amt);
    lemma_u64_round_trip(l.exp);
    let d = lock_layout(l);
    let disc = discriminator_of(LOCK_NAME@);
    assert(d.subrange(0, 8) =~= disc);
    assert(d.subrange(8, 40) =~= l.payer@);
    assert(d.subrange(40, 72) =~= l.dst@);
    assert(d.subrange(72, 80) =~= le_bytes(l.amt as nat, 8));
    assert(d.subrange(80, 88) =~= le_bytes(l.exp as nat, 8));
}

/// A stored auction reads back as the same auction.
/// (A digest has 32 bytes, so a discriminator has 8.)
pub proof fn lemma_auction_layout_round_trip(a: Auction)
    requires
        discriminator_of(AUCTION_NAME@).len() == 8,
    ensures
        ({
            let d = auction_layout(a);
            &&& d.len() == 145
            &&& d.subrange(0, 8) == discriminator_of(AUCTION_NAME@)
            &&& d.subrange(8, 40) == a.seller@
            &&& d.subrange(40, 72) == a.mint_sell@
            &&& d.subrange(72, 104) == a.mint_buy@
            &&& u64_at(d, 104) == a.start_price
            &&& u64_at(d, 112) == a.end_price
            &&& u64_at(d, 120) == a.start_time
            &&& u64_at(d, 128) == a.end_time
            &&& u64_at(d, 136) == a.sell_amt
            &&& d[144] == a.bump
        }),
{
    lemma_u64_round_trip(a.start_price);
    lemma_u64_round_trip(a.end_price);
    lemma_u64_round_trip(a.start_time);
    lemma_u64_round_trip(a.end_time);
    lemma_u64_round_trip(a.sell_amt);
    let d = auction_layout(a);
    assert(d.subrange(0, 8) =~= discriminator_of(AUCTION_NAME@));
    assert(d.subrange(8, 40) =~= a.seller@);
    assert(d.subrange(40, 72) =~= a.mint_sell@);
    assert(d.subrange(72, 104) =~= a.mint_buy@);
    assert(d.subrange(104, 112) =~= le_bytes(a.start_price as nat, 8));
    assert(d.subrange(112, 120) =~= le_bytes(a.end_price as nat, 8));
    assert(d.subrange(120, 128) =~= le_bytes(a.start_time as nat, 8));
    assert(d.subrange(128, 136) =~= le_bytes(a.end_time as nat, 8));
    assert(d.subrange(136, 144) =~= le_bytes(a.sell_amt as nat, 8));
}

/// A stored pool reads back as the same pool.
/// (A digest has 32 bytes, so a discriminator has 8.)
pub proof fn lemma_pool_layout_round_trip(p: Pool)
    requires
        discriminator_of(POOL_NAME@).len() == 8,
    ensures
        ({
            let d = pool_layout(p);
            &&& d.len() == 82
            &&& d.subrange(0, 8) == discriminator_of(POOL_NAME@)
            &&& d.subrange(8, 40) == p.mint_a@
            &&& d.subrange(40, 72) == p.mint_b@
            &&& u64_at(d, 72) == p.fee_bps
            &&& d[80] == p.bump_pool
            &&& d[81] == p.bump_mint_pool
        }),
{
    lemma_u64_round_trip(p.fee_bps);
    let d = pool_layout(p);
    assert(d.subrange(0, 8) =~= discriminator_of(POOL_NAME@));
    assert(d.subrange(8, 40) =~= p.mint_a@);
    assert(d.subrange(40, 72) =~= p.mint_b@);
    assert(d.subrange(72, 80) =~= le_bytes(p.fee_bps as nat, 8));
}

} // verus!
