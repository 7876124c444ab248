use vstd::prelude::*;

verus! {

/// A 32-byte ledger address.
pub type Address = [u8; 32];

/// Byte-wise lexicographic order on equal-length byte strings: `a` is smaller at
/// the first position where the two differ.
pub open spec fn lex_lt(a: Seq<u8>, b: Seq<u8>) -> bool {
    exists|i: int|
        0 <= i < a.len() && i < b.len() && a[i] < b[i] && forall|j: int|
            0 <= j < i ==> a[j] == b[j]
}

/// Whether `a` sorts strictly before `b`.
pub fn address_lt(a: &Address, b: &Address) -> (r: bool)
    ensures
        r == lex_lt(a@, b@),
{
    let mut i: usize = 0;
    while i < 32
        invariant
            0 <= i <= 32,
            a@.len() == 32,
            b@.len() == 32,
            forall|j: int| 0 <= j < i ==> a@[j] == b@[j],
        decreases 32 - i,
    {
        if a[i] < b[i] {
            assert(lex_lt(a@, b@)) by {
                assert(a@[i as int] < b@[i as int]);
            }
            return true;
        }
        if a[i] > b[i] {
            assert(!lex_lt(a@, b@)) by {
                if lex_lt(a@, b@) {
                    let k = choose|k: int|
                        0 <= k < a@.len() && k < b@.len() && a@[k] < b@[k] && forall|j: int|
                            0 <= j < k ==> a@[j] == b@[j];
                    if k > i as int {
                        assert(a@[i as int] == b@[i as int]);
                    }
                }
            }
            return false;
        }
        i = i + 1;
    }
    assert(!lex_lt(a@, b@)) by {
        if lex_lt(a@, b@) {
            let k = choose|k: int|
                0 <= k < a@.len() && k < b@.len() && a@[k] < b@[k] && forall|j: int|
                    0 <= j < k ==> a@[j] == b@[j];
            assert(a@[k] == b@[k]);
        }
    }
    false
}

/// Whether two addresses are the same.
pub fn address_eq(a: &Address, b: &Address) -> (r: bool)
    ensures
        r == (a@ == b@),
{
    let mut i: usize = 0;
    while i < 32
        invariant
            0 <= i <= 32,
            a@.len() == 32,
            b@.len() == 32,
            forall|j: int| 0 <= j < i ==> a@[j] == b@[j],
        decreases 32 - i,
    {
        if a[i] != b[i] {
            return false;
        }
        i = i + 1;
    }
    assert(a@ =~= b@);
    true
}

} // verus!
