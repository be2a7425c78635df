//! Small verified helpers on lists of accounts.
use crate::types::AccountId;
use vstd::prelude::*;

verus! {

/// Whether `x` occurs in `v`.
pub fn contains(v: &Vec<AccountId>, x: AccountId) -> (r: bool)
    ensures
        r == v@.contains(x),
{
    let mut i: usize = 0;
    while i < v.len()
        invariant
            i <= v.len(),
            forall|j: int| 0 <= j < i ==> v@[j] != x,
        decreases v.len() - i,
    {
        if v[i] == x {
            assert(v@[i as int] == x);
            return true;
        }
        i = i + 1;
    }
    false
}

/// A copy of `v`.
pub fn copy(v: &Vec<AccountId>) -> (r: Vec<AccountId>)
    ensures
        r@ == v@,
{
    let r = v.clone();
    assert(r@ =~= v@);
    r
}

/// A copy of a leaderboard.
pub fn copy_board(v: &Vec<(AccountId, i128)>) -> (r: Vec<(AccountId, i128)>)
    ensures
        r@ == v@,
{
    let mut r: Vec<(AccountId, i128)> = Vec::new();
    let mut i: usize = 0;
    while i < v.len()
        invariant
            i <= v.len(),
            r@ == v@.subrange(0, i as int),
        decreases v.len() - i,
    {
        r.push(v[i]);
        i = i + 1;
        assert(r@ =~= v@.subrange(0, i as int));
    }
    assert(v@.subrange(0, v.len() as int) =~= v@);
    r
}

/// `v` with `x` put in front.
pub fn push_front(v: &mut Vec<AccountId>, x: AccountId)
    ensures
        final(v)@ == seq![x] + old(v)@,
{
    v.insert(0, x);
    assert(final(v)@ =~= seq![x] + old(v)@);
}

} // verus!
