//! The ledger itself: the owned state and its four operations.

use crate::account::AccountId;
use crate::history::HistoryMap;
use crate::ledger::{entries_of, history_of, lemma_history_involves, lemma_history_push, Call, Ledger};
use crate::payment::{Balance, Error, Payment, PaymentCreated, TransferError};
use vstd::prelude::*;

verus! {

/// A payment ledger. It is created once, by its owner, and changes only
/// through [`PaymentContract::send_payment`].
pub struct PaymentContract {
    /// The account that created the ledger.
    owner: AccountId,
    /// The history of each account that took part in a payment.
    payments: HistoryMap,
    /// The number of payments recorded.
    payment_count: u128,
    /// Every payment recorded, oldest first.
    journal: Ghost<Seq<Payment>>,
}

impl PaymentContract {
    /// The ledger's state: its owner and all recorded payments in order.
    pub closed spec fn view(&self) -> Ledger {
        Ledger { owner: self.owner, payments: self.journal@ }
    }

    /// What holds of every ledger between two operations: the counter is
    /// the number of recorded payments, the stored history of each account
    /// is the account's history within the recorded payments, an account
    /// has a stored history only if that history is not empty, and each
    /// recorded payment is stored twice.
    pub closed spec fn wf(&self) -> bool {
        &&& self.payments.wf()
        &&& self@.well_formed()
        &&& self.payment_count == self.journal@.len()
        &&& self.payments.stored() == 2 * self.journal@.len()
        &&& forall|account: AccountId|
            self.payments@.contains_key(account) <==> (#[trigger] history_of(
                self.journal@,
                account,
            )).len() > 0
        &&& forall|account: AccountId|
            self.payments@.contains_key(account) ==> self.payments@[account] == #[trigger] history_of(
                self.journal@,
                account,
            )
    }

    /// A valid ledger's state is well formed: ids count the recorded
    /// payments from 1, and every recorded amount is positive.
    pub proof fn lemma_well_formed(&self)
        requires
            self.wf(),
        ensures
            self@.well_formed(),
    {
    }

    /// A valid ledger has room for another payment: its counter is below
    /// the largest id.
    pub proof fn lemma_count_bound(&self)
        requires
            self.wf(),
        ensures
            self@.count() < u128::MAX,
    {
        self.payments.lemma_stored_bound();
        assert(usize::MAX * usize::MAX <= 0xffff_ffff_ffff_ffff * 0xffff_ffff_ffff_ffff)
            by (nonlinear_arith)
            requires
                usize::MAX <= 0xffff_ffff_ffff_ffff,
        ;
    }

    /// Creates the ledger of `owner`, with nothing recorded.
    pub fn new(owner: AccountId) -> (contract: PaymentContract)
        ensures
            contract.wf(),
            contract@ == Ledger::init(owner),
    {
        PaymentContract {
            owner,
            payments: HistoryMap::new(),
            payment_count: 0,
            journal: Ghost(Seq::empty()),
        }
    }

    /// Checks the value attached to a call: zero is turned down. The host
    /// asks this before it attempts the transfer.
    pub fn check_amount(amount: Balance) -> (checked: Result<(), Error>)
        ensures
            amount == 0 ==> checked == Err::<(), Error>(Error::InvalidAmount),
            amount > 0 ==> checked == Ok::<(), Error>(()),
    {
        if amount == 0 {
            Err(Error::InvalidAmount)
        } else {
            Ok(())
        }
    }

    /// Appends `payment` to the stored history of `account`.
    fn append(&mut self, account: AccountId, payment: &Payment)
        requires
            old(self).payments.wf(),
        ensures
            final(self).payments.wf(),
            final(self).owner == old(self).owner,
            final(self).payment_count == old(self).payment_count,
            final(self).journal == old(self).journal,
            final(self).payments.stored() == old(self).payments.stored() + 1,
            final(self).payments@ == old(self).payments@.insert(
                account,
                (if old(self).payments@.contains_key(account) {
                    old(self).payments@[account]
                } else {
                    Seq::empty()
                }).push(*payment),
            ),
    {
        let mut history = match self.payments.get(account) {
            Some(stored) => stored,
            None => Vec::new(),
        };
        history.push(payment.clone());
        self.payments.insert(account, &history);
    }

    /// Records a payment of `amount` from `sender` to `recipient`.
    ///
    /// `sender`, `amount` and `timestamp` are what the host says of the
    /// call: who makes it, the value attached to it, and the time.
    /// `transfer` is the outcome of moving the value to the recipient. A
    /// zero amount is turned down with [`Error::InvalidAmount`], whatever
    /// `transfer` says; a failed transfer with [`Error::PaymentFailed`]. In
    /// both cases the ledger stays as it was. Otherwise the payment gets the
    /// next id, is appended to the sender's history and then to the
    /// recipient's (twice to the same history where the two are one
    /// account), and is counted; the notification to send out is returned.
    pub fn send_payment(
        &mut self,
        recipient: AccountId,
        description: Option<String>,
        sender: AccountId,
        amount: Balance,
        timestamp: u64,
        transfer: Result<(), TransferError>,
    ) -> (result: Result<PaymentCreated, Error>)
        requires
            old(self).wf(),
        ensures
            final(self).wf(),
            final(self)@ == old(self)@.after(
                (Call { recipient, description, sender, amount, timestamp, transfer }),
            ),
            result == old(self)@.outcome(
                (Call { recipient, description, sender, amount, timestamp, transfer }),
            ),
    {
        if Self::check_amount(amount).is_err() {
            return Err(Error::InvalidAmount);
        }
        proof {
            self.lemma_count_bound();
        }
        let payment_id: u128 = self.payment_count + 1;
        let payment = Payment { id: payment_id, sender, recipient, amount, description, timestamp };
        if transfer.is_err() {
            return Err(Error::PaymentFailed);
        }
        self.append(sender, &payment);
        self.append(recipient, &payment);
        self.payment_count = self.payment_count + 1;
        proof {
            self.journal@ = self.journal@.push(payment);
            let before = old(self).journal@;
            assert forall|account: AccountId|
                self.payments@.contains_key(account) <==> (#[trigger] history_of(
                    self.journal@,
                    account,
                )).len() > 0 by {
                lemma_history_push(before, payment, account);
            }
            assert forall|account: AccountId|
                self.payments@.contains_key(account) implies self.payments@[account]
                == #[trigger] history_of(self.journal@, account) by {
                lemma_history_push(before, payment, account);
                assert(self.payments@[account] =~= history_of(before, account) + entries_of(
                    payment,
                    account,
                ));
            }
        }
        Ok(payment.to_event())
    }

    /// The history of `user`: every payment it sent or received, oldest
    /// first; empty if it never took part in one.
    pub fn get_payment_history(&self, user: AccountId) -> (history: Vec<Payment>)
        requires
            self.wf(),
        ensures
            history@ == self@.history(user),
            forall|i: int| 0 <= i < history@.len() ==> (#[trigger] history@[i]).involves(user),
    {
        proof {
            lemma_history_involves(self.journal@, user);
        }
        match self.payments.get(user) {
            Some(stored) => stored,
            None => Vec::new(),
        }
    }

    /// Reading changes nothing: two reads of one account's history, with no
    /// payment recorded in between, return the same sequence.
    pub proof fn lemma_reads_repeat(&self, user: AccountId, first: Vec<Payment>, second: Vec<Payment>)
        requires
            first@ == self@.history(user),
            second@ == self@.history(user),
        ensures
            first@ == second@,
    {
    }

    /// The number of payments recorded.
    pub fn get_payment_count(&self) -> (count: u128)
        requires
            self.wf(),
        ensures
            count == self@.count(),
    {
        self.payment_count
    }

    /// The account that created the ledger.
    pub fn get_owner(&self) -> (owner: AccountId)
        ensures
            owner == self@.owner,
    {
        self.owner
    }
}

} // verus!
