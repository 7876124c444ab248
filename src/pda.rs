use vstd::prelude::*;

use crate::address::{address_eq, Address};
use crate::error::ErrorCode;

verus! {

/// Seed prefix of a pool's state account: `"pool"`.
pub const POOL_SEED: [u8; 4] = [112, 111, 111, 108];

/// Seed prefix of a pool's LP mint: `"mint_pool"`.
pub const MINT_POOL_SEED: [u8; 9] = [109, 105, 110, 116, 95, 112, 111, 111, 108];

/// Seed prefix of an auction's state account: `"auction"`.
pub const AUCTION_SEED: [u8; 7] = [97, 117, 99, 116, 105, 111, 110];

/// Seed prefix of a lock's account: `"lock"`.
pub const LOCK_SEED: [u8; 4] = [108, 111, 99, 107];

/// The program-derived address that `seeds` (the bump seed last) give under
/// `program_id`, or `None` where the derivation is refused.
pub uninterp spec fn program_address_of(seeds: Seq<Seq<u8>>, program_id: Seq<u8>) -> Option<
    Seq<u8>,
>;

/// Relies on `Pubkey::create_program_address` of solana_program, as anchor_lang's prelude
/// exports it: a hash of the seeds and the program id alone, refused where the seeds are
/// too many or too long or the hash lies on the curve.
#[verifier::external_body]
fn create_program_address(seeds: &Vec<Vec<u8>>, program_id: &Address) -> (r: Option<Address>)
    ensures
        r matches Some(a) ==> program_address_of(seeds_view(seeds), program_id@) == Some(a@),
        r is None ==> program_address_of(seeds_view(seeds), program_id@) is None,
{
    let refs: Vec<&[u8]> = seeds.iter().map(|s| s.as_slice()).collect();
    let pid = anchor_lang::prelude::Pubkey::new_from_array(*program_id);
    match anchor_lang::prelude::Pubkey::create_program_address(&refs, &pid) {
        Ok(k) => Some(k.to_bytes()),
        Err(_) => None,
    }
}

/// Copies a byte string.
pub fn bytes_of(s: &[u8]) -> (r: Vec<u8>)
    ensures
        r@ == s@,
{
    let mut r: Vec<u8> = Vec::new();
    let mut i: usize = 0;
    while i < s.len()
        invariant
            0 <= i <= s@.len(),
            r@ == s@.subrange(0, i as int),
        decreases s@.len() - i,
    {
        r.push(s[i]);
        i = i + 1;
        assert(r@ =~= s@.subrange(0, i as int));
    }
    assert(r@ =~= s@);
    r
}

/// The byte strings of a list of seeds.
pub open spec fn seeds_view(seeds: &Vec<Vec<u8>>) -> Seq<Seq<u8>> {
    seeds@.map_values(|s: Vec<u8>| s@)
}

/// Builds the seeds `[tag, a, b, [bump]]`.
pub fn seeds_two(tag: &[u8], a: &Address, b: &Address, bump: u8) -> (r: Vec<Vec<u8>>)
    ensures
        seeds_view(&r) == seq![tag@, a@, b@, seq![bump]],
{
    let mut r: Vec<Vec<u8>> = Vec::new();
    r.push(bytes_of(tag));
    r.push(bytes_of(a));
    r.push(bytes_of(b));
    let mut last: Vec<u8> = Vec::new();
    last.push(bump);
    r.push(last);
    assert(last@ =~= seq![bump]);
    assert(seeds_view(&r) =~= seq![tag@, a@, b@, seq![bump]]);
    r
}

/// Builds the seeds `[tag, a, b, c, [bump]]`.
pub fn seeds_three(tag: &[u8], a: &Address, b: &Address, c: &Address, bump: u8) -> (r: Vec<
    Vec<u8>,
>)
    ensures
        seeds_view(&r) == seq![tag@, a@, b@, c@, seq![bump]],
{
    let mut r: Vec<Vec<u8>> = Vec::new();
    r.push(bytes_of(tag));
    r.push(bytes_of(a));
    r.push(bytes_of(b));
    r.push(bytes_of(c));
    let mut last: Vec<u8> = Vec::new();
    last.push(bump);
    r.push(last);
    assert(last@ =~= seq![bump]);
    assert(seeds_view(&r) =~= seq![tag@, a@, b@, c@, seq![bump]]);
    r
}

/// Re-derives the address from `seeds` and accepts `presented` only if it is that address.
pub fn check_program_address(seeds: &Vec<Vec<u8>>, program_id: &Address, presented: &Address) -> (r:
    Result<(), ErrorCode>)
    ensures
        r is Ok <==> program_address_of(seeds_view(seeds), program_id@) == Some(presented@),
        r is Err ==> r == Err::<(), ErrorCode>(ErrorCode::InvalidAccount),
{
    match create_program_address(seeds, program_id) {
        Some(derived) => {
            if address_eq(&derived, presented) {
                Ok(())
            } else {
                Err(ErrorCode::InvalidAccount)
            }
        },
        None => Err(ErrorCode::InvalidAccount),
    }
}

} // verus!
