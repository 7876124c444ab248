use vstd::prelude::*;

use crate::address::Address;
use crate::error::ErrorCode;
use crate::instruction::{decode_lock, decode_lock_spec, LockInstruction};
use crate::pda::{check_program_address, program_address_of, seeds_two, LOCK_SEED};

verus! {

/// A time lock of native balance, stored at the PDA `["lock", payer, dst]`.
#[derive(Debug, Clone, Copy, PartialEq, Eq)]
pub struct Lock {
    pub payer: Address,
    pub dst: Address,
    pub amt: u64,
    pub exp: u64,
    pub bump: u8,
}

impl Lock {
    /// Address of the lock's account, `["lock", payer, dst]` with its bump.
    pub open spec fn address(self, program_id: Address) -> Option<Seq<u8>> {
        program_address_of(seq![LOCK_SEED@, self.payer@, self.dst@, seq![self.bump]], program_id@)
    }

    /// Accepts the presented lock account only if it re-derives from the two parties and
    /// the bump.
    pub fn verify_address(&self, program_id: &Address, presented: &Address) -> (r: Result<
        (),
        ErrorCode,
    >)
        ensures
            r is Ok <==> self.address(*program_id) == Some(presented@),
            r is Err ==> r == Err::<(), ErrorCode>(ErrorCode::InvalidAccount),
    {
        let tag = LOCK_SEED;
        let seeds = seeds_two(&tag, &self.payer, &self.dst, self.bump);
        check_program_address(&seeds, program_id, presented)
    }
}

/// Native balances of the two parties and of the lock's PDA.
#[derive(Debug, Clone, Copy, PartialEq, Eq, Structural)]
pub struct Lamports {
    pub payer: u64,
    pub dst: u64,
    pub vault: u64,
}

/// Creation of a lock: both parties sign, `amt > 0`, `exp` lies in the future, and the
/// payer funds the PDA with `amt` plus its rent-exemption minimum.
pub open spec fn lock_spec(
    account: Option<Lock>,
    bal: Lamports,
    params: Lock,
    payer_signed: bool,
    dst_signed: bool,
    now: u64,
    rent_minimum: u64,
) -> Result<(Option<Lock>, Lamports), ErrorCode> {
    if !payer_signed || !dst_signed {
        Err(ErrorCode::Unauthorized)
    } else if account is Some || bal.vault != 0 {
        Err(ErrorCode::AlreadyExists)
    } else if params.amt == 0 || params.exp <= now {
        Err(ErrorCode::InvalidInstructionData)
    } else if params.amt + rent_minimum > bal.payer {
        Err(ErrorCode::MathOverflow)
    } else {
        Ok(
            (
                Some(params),
                Lamports {
                    payer: (bal.payer - params.amt - rent_minimum) as u64,
                    vault: (params.amt + rent_minimum) as u64,
                    ..bal
                },
            ),
        )
    }
}

/// Release of a lock. The payer must sign. Before `exp` the destination must sign too
/// and receives `amt`; from `exp` on the payer alone takes `amt` back. Either way the
/// rent goes back to the payer and the lock is closed.
pub open spec fn unlock_spec(
    account: Option<Lock>,
    bal: Lamports,
    payer_signed: bool,
    dst_signed: bool,
    now: u64,
) -> Result<(Option<Lock>, Lamports), ErrorCode> {
    match account {
        None => Err(ErrorCode::Closed),
        Some(l) => {
            if !payer_signed {
                Err(ErrorCode::Unauthorized)
            } else if now < l.exp && !dst_signed {
                Err(ErrorCode::NotExpired)
            } else if bal.vault < l.amt {
                Err(ErrorCode::InvalidAccount)
            } else if now < l.exp {
                if bal.dst + l.amt > u64::MAX || bal.payer + (bal.vault - l.amt) > u64::MAX {
                    Err(ErrorCode::MathOverflow)
                } else {
                    Ok(
                        (
                            None,
                            Lamports {
                                payer: (bal.payer + (bal.vault - l.amt)) as u64,
                                dst: (bal.dst + l.amt) as u64,
                                vault: 0,
                            },
                        ),
                    )
                }
            } else if bal.payer + bal.vault > u64::MAX {
                Err(ErrorCode::MathOverflow)
            } else {
                Ok((None, Lamports { payer: (bal.payer + bal.vault) as u64, vault: 0, ..bal }))
            }
        },
    }
}

/// Locks `params.amt` until `params.exp`; on failure nothing changes.
pub fn lock(
    account: &mut Option<Lock>,
    bal: &mut Lamports,
    params: Lock,
    payer_signed: bool,
    dst_signed: bool,
    now: u64,
    rent_minimum: u64,
) -> (r: Result<(), ErrorCode>)
    ensures
        match lock_spec(*old(account), *old(bal), params, payer_signed, dst_signed, now, rent_minimum) {
            Ok((acc, b)) => r is Ok && *final(account) == acc && *final(bal) == b,
            Err(e) => r == Err::<(), ErrorCode>(e) && *final(account) == *old(account) && *final(bal)
                == *old(bal),
        },
        r is Ok ==> final(bal).vault == params.amt + rent_minimum,
{
    if !payer_signed || !dst_signed {
        return Err(ErrorCode::Unauthorized);
    }
    if account.is_some() || bal.vault != 0 {
        return Err(ErrorCode::AlreadyExists);
    }
    if params.amt == 0 || params.exp <= now {
        return Err(ErrorCode::InvalidInstructionData);
    }
    if rent_minimum > u64::MAX - params.amt || params.amt + rent_minimum > bal.payer {
        return Err(ErrorCode::MathOverflow);
    }
    let total: u64 = params.amt + rent_minimum;
    bal.payer = bal.payer - total;
    bal.vault = total;
    *account = Some(params);
    Ok(())
}

/// Releases the lock by the path that the signers and the time select; on failure
/// nothing changes.
pub fn unlock(
    account: &mut Option<Lock>,
    bal: &mut Lamports,
    payer_signed: bool,
    dst_signed: bool,
    now: u64,
) -> (r: Result<(), ErrorCode>)
    ensures
        match unlock_spec(*old(account), *old(bal), payer_signed, dst_signed, now) {
            Ok((acc, b)) => r is Ok && *final(account) == acc && *final(bal) == b,
            Err(e) => r == Err::<(), ErrorCode>(e) && *final(account) == *old(account) && *final(bal)
                == *old(bal),
        },
        r is Ok ==> final(bal).vault == 0 && *final(account) == None::<Lock>,
{
    let l = match account {
        None => return Err(ErrorCode::Closed),
        Some(l) => *l,
    };
    if !payer_signed {
        return Err(ErrorCode::Unauthorized);
    }
    if now < l.exp && !dst_signed {
        return Err(ErrorCode::NotExpired);
    }
    if bal.vault < l.amt {
        return Err(ErrorCode::InvalidAccount);
    }
    if now < l.exp {
        let rent: u64 = bal.vault - l.amt;
        if bal.dst > u64::MAX - l.amt || bal.payer > u64::MAX - rent {
            return Err(ErrorCode::MathOverflow);
        }
        bal.payer = bal.payer + rent;
        bal.dst = bal.dst + l.amt;
    } else {
        if bal.payer > u64::MAX - bal.vault {
            return Err(ErrorCode::MathOverflow);
        }
        bal.payer = bal.payer + bal.vault;
    }
    bal.vault = 0;
    *account = None;
    Ok(())
}

/// What the lock program does with the instruction bytes `data`; `payer`, `dst` and
/// `bump` come from the presented accounts.
pub open spec fn process_spec(
    account: Option<Lock>,
    bal: Lamports,
    data: Seq<u8>,
    payer: Address,
    dst: Address,
    bump: u8,
    payer_signed: bool,
    dst_signed: bool,
    now: u64,
    rent_minimum: u64,
) -> Result<(Option<Lock>, Lamports), ErrorCode> {
    match decode_lock_spec(data) {
        Err(e) => Err(e),
        Ok(LockInstruction::Lock { amt, exp }) => lock_spec(
            account,
            bal,
            Lock { payer, dst, amt, exp, bump },
            payer_signed,
            dst_signed,
            now,
            rent_minimum,
        ),
        Ok(LockInstruction::Unlock) => unlock_spec(account, bal, payer_signed, dst_signed, now),
    }
}

/// Entry point of the lock program: parses `data` and runs the instruction it names; on
/// failure nothing changes.
pub fn process(
    account: &mut Option<Lock>,
    bal: &mut Lamports,
    data: &Vec<u8>,
    payer: Address,
    dst: Address,
    bump: u8,
    payer_signed: bool,
    dst_signed: bool,
    now: u64,
    rent_minimum: u64,
) -> (r: Result<(), ErrorCode>)
    ensures
        match process_spec(
            *old(account),
            *old(bal),
            data@,
            payer,
            dst,
            bump,
            payer_signed,
            dst_signed,
            now,
            rent_minimum,
        ) {
            Ok((acc, b)) => r is Ok && *final(account) == acc && *final(bal) == b,
            Err(e) => r == Err::<(), ErrorCode>(e) && *final(account) == *old(account) && *final(bal)
                == *old(bal),
        },
{
    match decode_lock(data) {
        Err(e) => Err(e),
        Ok(LockInstruction::Lock { amt, exp }) => {
            let params = Lock { payer, dst, amt, exp, bump };
            lock(account, bal, params, payer_signed, dst_signed, now, rent_minimum)
        },
        Ok(LockInstruction::Unlock) => unlock(account, bal, payer_signed, dst_signed, now),
    }
}

/// A successful lock leaves `amt` plus the rent minimum in the PDA, and any successful
/// unlock that follows leaves it empty and the lock closed.
pub proof fn lemma_lock_custody(
    account: Option<Lock>,
    bal: Lamports,
    params: Lock,
    payer_signed: bool,
    dst_signed: bool,
    now: u64,
    rent_minimum: u64,
    unlock_payer_signed: bool,
    unlock_dst_signed: bool,
    later: u64,
)
    requires
        lock_spec(account, bal, params, payer_signed, dst_signed, now, rent_minimum) is Ok,
    ensures
        ({
            let (acc1, bal1) = lock_spec(
                account,
                bal,
                params,
                payer_signed,
                dst_signed,
                now,
                rent_minimum,
            )->Ok_0;
            let u = unlock_spec(acc1, bal1, unlock_payer_signed, unlock_dst_signed, later);
            &&& bal1.vault == params.amt + rent_minimum
            &&& acc1 == Some(params)
            &&& u is Ok ==> u->Ok_0.1.vault == 0 && u->Ok_0.0 is None
        }),
{
}

} // verus!
