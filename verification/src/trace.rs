//! What holds over the whole life of a ledger: from its creation, through
//! any sequence of calls.

use crate::account::AccountId;
use crate::ledger::{Call, Ledger};
use vstd::prelude::*;

verus! {

/// The ledger that `owner` created, after `calls` were made in order.
pub open spec fn ledger_after(owner: AccountId, calls: Seq<Call>) -> Ledger
    decreases calls.len(),
{
    if calls.len() == 0 {
        Ledger::init(owner)
    } else {
        ledger_after(owner, calls.drop_last()).after(calls.last())
    }
}

/// How many of `calls` were accepted.
pub open spec fn accepted_calls(calls: Seq<Call>) -> nat
    decreases calls.len(),
{
    if calls.len() == 0 {
        0
    } else if calls.last().accepted() {
        accepted_calls(calls.drop_last()) + 1
    } else {
        accepted_calls(calls.drop_last())
    }
}

/// The counter always equals the number of calls that were accepted since
/// the ledger was created: each of them recorded one payment, and nothing
/// else ever did.
pub proof fn lemma_count_is_accepted_calls(owner: AccountId, calls: Seq<Call>)
    ensures
        ledger_after(owner, calls).count() == accepted_calls(calls),
        ledger_after(owner, calls).owner == owner,
    decreases calls.len(),
{
    if calls.len() > 0 {
        lemma_count_is_accepted_calls(owner, calls.drop_last());
    }
}

/// No more calls are accepted among the first `n` than among all.
pub proof fn lemma_accepted_calls_monotone(calls: Seq<Call>, n: int)
    requires
        0 <= n <= calls.len(),
    ensures
        accepted_calls(calls.take(n)) <= accepted_calls(calls),
    decreases calls.len(),
{
    if n == calls.len() {
        assert(calls.take(n) =~= calls);
    } else {
        lemma_accepted_calls_monotone(calls.drop_last(), n);
        assert(calls.drop_last().take(n) =~= calls.take(n));
    }
}

/// Ids are handed out in order, from 1 and without a gap: the call at
/// position `i`, if accepted, returns one more than the number of calls
/// accepted before it. A call that is not accepted returns no id. Ids are
/// 128-bit, so this is stated of ledgers in which they have not run out.
pub proof fn lemma_ids_are_sequential(owner: AccountId, calls: Seq<Call>, i: int)
    requires
        0 <= i < calls.len(),
        accepted_calls(calls.take(i)) < u128::MAX,
    ensures
        calls[i].accepted() ==> ledger_after(owner, calls.take(i)).outcome(calls[i]) is Ok
            && ledger_after(owner, calls.take(i)).outcome(calls[i])->Ok_0.payment_id
            == accepted_calls(calls.take(i)) + 1,
        !calls[i].accepted() ==> ledger_after(owner, calls.take(i)).outcome(calls[i]) is Err,
{
    lemma_count_is_accepted_calls(owner, calls.take(i));
}

/// Of two accepted calls, the later one returns the larger id.
pub proof fn lemma_ids_increase(owner: AccountId, calls: Seq<Call>, i: int, j: int)
    requires
        0 <= i < j < calls.len(),
        calls[i].accepted(),
        calls[j].accepted(),
        accepted_calls(calls.take(j)) < u128::MAX,
    ensures
        ledger_after(owner, calls.take(i)).outcome(calls[i])->Ok_0.payment_id < ledger_after(
            owner,
            calls.take(j),
        ).outcome(calls[j])->Ok_0.payment_id,
{
    // The calls before `j` include call `i` and all calls before it.
    let upto = calls.take(i + 1);
    assert(upto.drop_last() =~= calls.take(i));
    lemma_accepted_calls_monotone(calls.take(j), i + 1);
    assert(calls.take(j).take(i + 1) =~= upto);
    lemma_ids_are_sequential(owner, calls, i);
    lemma_ids_are_sequential(owner, calls, j);
}

/// A ledger stays well formed through any sequence of calls that does not
/// exhaust the ids.
pub proof fn lemma_always_well_formed(owner: AccountId, calls: Seq<Call>)
    requires
        accepted_calls(calls) <= u128::MAX,
    ensures
        ledger_after(owner, calls).well_formed(),
    decreases calls.len(),
{
    if calls.len() > 0 {
        let earlier = calls.drop_last();
        lemma_always_well_formed(owner, earlier);
        lemma_count_is_accepted_calls(owner, earlier);
        if calls.last().accepted() {
            ledger_after(owner, earlier).lemma_after_well_formed(calls.last());
        }
    }
}

} // verus!
