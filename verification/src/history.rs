//! The store of per-account histories: a map from account to the sequence
//! of that account's payments, which answers a miss with `None` and
//! replaces the whole sequence on a write.

use crate::account::AccountId;
use crate::payment::Payment;
use vstd::prelude::*;

verus! {

/// One account with its payments.
struct HistoryEntry {
    account: AccountId,
    payments: Vec<Payment>,
}

/// Histories by account. No account has more than one entry, and an entry
/// exists only once something was stored for the account.
pub struct HistoryMap {
    entries: Vec<HistoryEntry>,
}

/// The number of payments held in `entries`, over all accounts.
spec fn total(entries: Seq<HistoryEntry>) -> nat
    decreases entries.len(),
{
    if entries.len() == 0 {
        0
    } else {
        total(entries.drop_last()) + entries.last().payments@.len()
    }
}

/// No list holds more than `usize::MAX` payments, so `entries` holds at most
/// that many for each of its accounts.
proof fn lemma_total_bound(entries: Seq<HistoryEntry>)
    ensures
        total(entries) <= entries.len() * usize::MAX,
    decreases entries.len(),
{
    if entries.len() > 0 {
        lemma_total_bound(entries.drop_last());
        assert(entries.last().payments@.len() == entries.last().payments.len());
        assert((entries.len() - 1) * usize::MAX + usize::MAX == entries.len() * usize::MAX)
            by (nonlinear_arith);
    }
}

/// Replacing the payments of one entry changes the total by the difference
/// of the two lengths.
proof fn lemma_total_update(entries: Seq<HistoryEntry>, i: int, entry: HistoryEntry)
    requires
        0 <= i < entries.len(),
    ensures
        total(entries.update(i, entry)) + entries[i].payments@.len() == total(entries)
            + entry.payments@.len(),
    decreases entries.len(),
{
    let updated = entries.update(i, entry);
    if i == entries.len() - 1 {
        assert(updated.drop_last() =~= entries.drop_last());
    } else {
        lemma_total_update(entries.drop_last(), i, entry);
        assert(updated.drop_last() =~= entries.drop_last().update(i, entry));
    }
}

/// A copy of `payments`, record by record.
fn clone_payments(payments: &Vec<Payment>) -> (copy: Vec<Payment>)
    ensures
        copy@ == payments@,
{
    let mut copy: Vec<Payment> = Vec::new();
    let mut i: usize = 0;
    while i < payments.len()
        invariant
            i <= payments.len(),
            copy@ == payments@.take(i as int),
        decreases payments.len() - i,
    {
        copy.push(payments[i].clone());
        i += 1;
    }
    assert(payments@.take(i as int) =~= payments@);
    copy
}

impl HistoryMap {
    /// Whether some entry is for `account`.
    spec fn has(&self, account: AccountId) -> bool {
        exists|i: int| 0 <= i < self.entries@.len() && self.entries@[i].account == account
    }

    /// The place of the entry for `account`, if there is one.
    spec fn position(&self, account: AccountId) -> int {
        choose|i: int| 0 <= i < self.entries@.len() && self.entries@[i].account == account
    }

    /// No two entries are for the same account.
    pub closed spec fn wf(&self) -> bool {
        forall|i: int, j: int|
            0 <= i < j < self.entries@.len() ==> self.entries@[i].account
                != self.entries@[j].account
    }

    /// The histories stored, by account.
    pub closed spec fn view(&self) -> Map<AccountId, Seq<Payment>> {
        Map::new(
            |account: AccountId| self.has(account),
            |account: AccountId| self.entries@[self.position(account)].payments@,
        )
    }

    /// The number of payments stored, over all accounts.
    pub closed spec fn stored(&self) -> nat {
        total(self.entries@)
    }

    /// The store holds at most `usize::MAX` histories of at most
    /// `usize::MAX` payments each.
    pub proof fn lemma_stored_bound(&self)
        ensures
            self.stored() <= usize::MAX * usize::MAX,
    {
        lemma_total_bound(self.entries@);
        assert(self.entries@.len() == self.entries.len());
        assert(self.entries@.len() * usize::MAX <= usize::MAX * usize::MAX) by (nonlinear_arith)
            requires
                self.entries@.len() <= usize::MAX,
        ;
    }

    /// A store with no history in it.
    pub fn new() -> (map: HistoryMap)
        ensures
            map.wf(),
            map@ == Map::<AccountId, Seq<Payment>>::empty(),
            map.stored() == 0,
    {
        HistoryMap { entries: Vec::new() }
    }

    /// The place of the entry for `account`, or `None` if there is none.
    fn find(&self, account: AccountId) -> (found: Option<usize>)
        requires
            self.wf(),
        ensures
            match found {
                Some(i) => i < self.entries@.len() && self.entries@[i as int].account == account
                    && self.has(account) && self.position(account) == i,
                None => !self.has(account),
            },
    {
        let mut i: usize = 0;
        while i < self.entries.len()
            invariant
                self.wf(),
                i <= self.entries@.len(),
                forall|j: int| 0 <= j < i ==> self.entries@[j].account != account,
            decreases self.entries@.len() - i,
        {
            if self.entries[i].account == account {
                // Entry `i` is for the account, and no other entry is.
                assert(self.has(account) && self.position(account) == i);
                return Some(i);
            }
            i += 1;
        }
        None
    }

    /// A copy of the history stored for `account`, or `None` if nothing was
    /// ever stored for it.
    pub fn get(&self, account: AccountId) -> (found: Option<Vec<Payment>>)
        requires
            self.wf(),
        ensures
            match found {
                Some(payments) => self@.contains_key(account) && payments@ == self@[account],
                None => !self@.contains_key(account),
            },
    {
        match self.find(account) {
            Some(i) => Some(clone_payments(&self.entries[i].payments)),
            None => None,
        }
    }

    /// Stores a copy of `payments` as the history of `account`, in place of
    /// what was stored for it before.
    pub fn insert(&mut self, account: AccountId, payments: &Vec<Payment>)
        requires
            old(self).wf(),
        ensures
            final(self).wf(),
            final(self)@ == old(self)@.insert(account, payments@),
            final(self).stored() + (if old(self)@.contains_key(account) {
                old(self)@[account].len()
            } else {
                0
            }) == old(self).stored() + payments@.len(),
    {
        let entry = HistoryEntry { account, payments: clone_payments(payments) };
        match self.find(account) {
            Some(i) => {
                proof {
                    lemma_total_update(self.entries@, i as int, entry);
                }
                self.entries[i] = entry;
            },
            None => {
                self.entries.push(entry);
                assert(self.entries@.drop_last() =~= old(self).entries@);
                assert(self.entries@[self.entries@.len() - 1].account == account);
            },
        }
        assert(self@ =~= old(self)@.insert(account, payments@)) by {
            assert forall|other: AccountId| self.has(other) <==> old(self).has(other) || other
                == account by {
                if old(self).has(other) {
                    let j = old(self).position(other);
                    assert(self.entries@[j].account == other);
                }
            }
        }
    }
}

} // verus!
