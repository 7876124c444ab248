use piggy::error::ErrorCode;
use piggy::lock::{lock, unlock, Lamports, Lock};

const NOW: u64 = 1_700_000_000;
const AMT: u64 = 5_000_000_000;
const RENT: u64 = 953_520;

fn params() -> Lock {
    Lock { payer: [1u8; 32], dst: [2u8; 32], amt: AMT, exp: NOW + 3600, bump: 255 }
}

fn wallets() -> Lamports {
    Lamports { payer: 10_000_000_000, dst: 1_000_000, vault: 0 }
}

fn locked() -> (Option<Lock>, Lamports) {
    let mut account = None;
    let mut bal = wallets();
    lock(&mut account, &mut bal, params(), true, true, NOW, RENT).unwrap();
    (account, bal)
}

#[test]
fn lock_funds_the_pda() {
    let (account, bal) = locked();
    assert_eq!(account, Some(params()));
    assert_eq!(bal.vault, AMT + RENT);
    assert_eq!(bal.payer, 10_000_000_000 - AMT - RENT);
    assert_eq!(bal.dst, 1_000_000);
}

#[test]
fn lock_rejections() {
    let mut account = None;
    let mut bal = wallets();
    assert_eq!(lock(&mut account, &mut bal, params(), true, false, NOW, RENT), Err(ErrorCode::Unauthorized));
    assert_eq!(lock(&mut account, &mut bal, params(), false, true, NOW, RENT), Err(ErrorCode::Unauthorized));
    let zero = Lock { amt: 0, ..params() };
    assert_eq!(lock(&mut account, &mut bal, zero, true, true, NOW, RENT), Err(ErrorCode::InvalidInstructionData));
    let past = Lock { exp: NOW, ..params() };
    assert_eq!(lock(&mut account, &mut bal, past, true, true, NOW, RENT), Err(ErrorCode::InvalidInstructionData));
    let huge = Lock { amt: 10_000_000_000, ..params() };
    assert_eq!(lock(&mut account, &mut bal, huge, true, true, NOW, RENT), Err(ErrorCode::MathOverflow));
    assert_eq!((account, bal), (None, wallets()));
    let (mut account, mut bal) = locked();
    assert_eq!(lock(&mut account, &mut bal, params(), true, true, NOW, RENT), Err(ErrorCode::AlreadyExists));
}

#[test]
fn consensual_early_release() {
    let (mut account, mut bal) = locked();
    assert_eq!(unlock(&mut account, &mut bal, true, true, NOW + 60), Ok(()));
    assert_eq!(account, None);
    assert_eq!(bal.vault, 0);
    assert_eq!(bal.dst, 1_000_000 + AMT);
    assert_eq!(bal.payer, 10_000_000_000 - AMT);
}

#[test]
fn timeout_returns_to_payer() {
    let (mut account, mut bal) = locked();
    assert_eq!(unlock(&mut account, &mut bal, true, false, NOW + 3601), Ok(()));
    assert_eq!(account, None);
    assert_eq!(bal, wallets());
}

#[test]
fn unlock_by_destination_alone_is_unauthorized() {
    let (mut account, mut bal) = locked();
    let before = (account, bal);
    assert_eq!(unlock(&mut account, &mut bal, false, true, NOW + 60), Err(ErrorCode::Unauthorized));
    assert_eq!((account, bal), before);
}

#[test]
fn unlock_before_expiry_by_payer_alone() {
    let (mut account, mut bal) = locked();
    assert_eq!(unlock(&mut account, &mut bal, true, false, NOW + 3599), Err(ErrorCode::NotExpired));
    assert_eq!(unlock(&mut account, &mut bal, true, false, NOW + 3600), Ok(()));
    assert_eq!(unlock(&mut account, &mut bal, true, false, NOW + 3600), Err(ErrorCode::Closed));
}
