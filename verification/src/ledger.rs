//! The ledger as a mathematical value: its owner and the payments recorded
//! so far, oldest first. Counters and per-account histories are functions of
//! that sequence.

use crate::account::AccountId;
use crate::payment::{Balance, Error, Payment, PaymentCreated, TransferError};
use vstd::prelude::*;

verus! {

/// What one call of `send_payment` is given: the request, what the host says
/// of the call, and how the value transfer went.
pub struct Call {
    /// The account to pay.
    pub recipient: AccountId,
    /// A note to store with the payment.
    pub description: Option<String>,
    /// The account that makes the call.
    pub sender: AccountId,
    /// The value attached to the call.
    pub amount: Balance,
    /// The host's time of the call.
    pub timestamp: u64,
    /// The outcome of moving `amount` to `recipient`. It is read only where
    /// the amount is positive: no transfer is attempted otherwise.
    pub transfer: Result<(), TransferError>,
}

impl Call {
    /// Whether the call leads to a recorded payment: the amount is positive
    /// and the value was moved.
    pub open spec fn accepted(self) -> bool {
        self.amount > 0 && self.transfer is Ok
    }
}

/// The state of a ledger.
pub struct Ledger {
    /// The account that created the ledger.
    pub owner: AccountId,
    /// Every payment recorded so far, oldest first.
    pub payments: Seq<Payment>,
}

/// What a payment adds to the history of `account`: one entry if the account
/// sent it, and one if the account received it. A payment of an account to
/// itself adds two.
pub open spec fn entries_of(payment: Payment, account: AccountId) -> Seq<Payment> {
    let sent = if payment.sender == account {
        seq![payment]
    } else {
        Seq::empty()
    };
    let received = if payment.recipient == account {
        seq![payment]
    } else {
        Seq::empty()
    };
    sent + received
}

/// The history of `account` within `payments`: the entries of each payment,
/// in the order of the payments.
pub open spec fn history_of(payments: Seq<Payment>, account: AccountId) -> Seq<Payment>
    decreases payments.len(),
{
    if payments.len() == 0 {
        Seq::empty()
    } else {
        history_of(payments.drop_last(), account) + entries_of(payments.last(), account)
    }
}

/// The payment at each position carries that position, counted from 1, as
/// its id, and a positive amount.
pub open spec fn numbered(payments: Seq<Payment>) -> bool {
    forall|i: int|
        0 <= i < payments.len() ==> {
            &&& (#[trigger] payments[i]).id == i + 1
            &&& payments[i].amount > 0
        }
}

impl Ledger {
    /// The ledger that `owner` has just created: nothing is recorded.
    pub open spec fn init(owner: AccountId) -> Ledger {
        Ledger { owner, payments: Seq::empty() }
    }

    /// The number of payments recorded.
    pub open spec fn count(self) -> nat {
        self.payments.len()
    }

    /// The history of `account`: empty if it never took part in a payment.
    pub open spec fn history(self, account: AccountId) -> Seq<Payment> {
        history_of(self.payments, account)
    }

    /// Ids count the payments from 1 without a gap, and every recorded
    /// amount is positive.
    pub open spec fn well_formed(self) -> bool {
        numbered(self.payments)
    }

    /// The record that an accepted `call` creates.
    pub open spec fn next_payment(self, call: Call) -> Payment {
        Payment {
            id: (self.count() + 1) as u128,
            sender: call.sender,
            recipient: call.recipient,
            amount: call.amount,
            description: call.description,
            timestamp: call.timestamp,
        }
    }

    /// The ledger with `payment` recorded after all others.
    pub open spec fn record(self, payment: Payment) -> Ledger {
        Ledger { owner: self.owner, payments: self.payments.push(payment) }
    }

    /// The ledger after `call`: unchanged unless the call is accepted.
    pub open spec fn after(self, call: Call) -> Ledger {
        if call.accepted() {
            self.record(self.next_payment(call))
        } else {
            self
        }
    }

    /// What `call` returns. The amount is checked first, then the transfer.
    pub open spec fn outcome(self, call: Call) -> Result<PaymentCreated, Error> {
        if call.amount == 0 {
            Err(Error::InvalidAmount)
        } else if call.transfer is Err {
            Err(Error::PaymentFailed)
        } else {
            Ok(self.next_payment(call).created())
        }
    }
}

impl Ledger {
    /// A call with no value attached is turned down as an invalid amount,
    /// whatever the transfer would have done, and changes nothing: the
    /// counter and every history stay as they were.
    pub proof fn lemma_zero_amount_rejected(self, call: Call)
        requires
            call.amount == 0,
        ensures
            self.outcome(call) == Err::<PaymentCreated, Error>(Error::InvalidAmount),
            self.after(call) == self,
            self.after(call).count() == self.count(),
            forall|account: AccountId| self.after(call).history(account) == self.history(account),
    {
    }

    /// A call whose value transfer fails is turned down as a failed payment
    /// and changes nothing: the counter and every history, those of the two
    /// parties included, stay as they were.
    pub proof fn lemma_failed_transfer_rejected(self, call: Call)
        requires
            call.amount > 0,
            call.transfer is Err,
        ensures
            self.outcome(call) == Err::<PaymentCreated, Error>(Error::PaymentFailed),
            self.after(call) == self,
            self.after(call).count() == self.count(),
            self.after(call).history(call.sender) == self.history(call.sender),
            self.after(call).history(call.recipient) == self.history(call.recipient),
            forall|account: AccountId| self.after(call).history(account) == self.history(account),
    {
    }

    /// A call succeeds exactly when it is accepted, and only then does the
    /// ledger change.
    pub proof fn lemma_outcome_ok_iff_accepted(self, call: Call)
        ensures
            self.outcome(call) is Ok <==> call.accepted(),
            !call.accepted() ==> self.after(call) == self,
    {
    }

    /// An accepted call returns the id that follows the counter, announces
    /// the payment it was asked for, and moves the counter up by one.
    pub proof fn lemma_accepted_gets_next_id(self, call: Call)
        requires
            call.accepted(),
            self.count() < u128::MAX,
        ensures
            self.outcome(call) == Ok::<PaymentCreated, Error>(
                (PaymentCreated {
                    payment_id: (self.count() + 1) as u128,
                    sender: call.sender,
                    recipient: call.recipient,
                    amount: call.amount,
                    timestamp: call.timestamp,
                }),
            ),
            self.outcome(call)->Ok_0.payment_id == self.count() + 1,
            self.after(call).count() == self.count() + 1,
            self.after(call).payments.last() == self.next_payment(call),
    {
    }

    /// An accepted call appends the new payment to the sender's history and
    /// to the recipient's, to one history twice where the two are the same
    /// account, and leaves every other history as it was.
    pub proof fn lemma_accepted_extends_histories(self, call: Call, account: AccountId)
        requires
            call.accepted(),
        ensures
            self.after(call).history(account) == self.history(account) + entries_of(
                self.next_payment(call),
                account,
            ),
            account != call.sender && account != call.recipient ==> self.after(call).history(
                account,
            ) == self.history(account),
            account == call.sender && account != call.recipient ==> self.after(call).history(
                account,
            ) == self.history(account).push(self.next_payment(call)),
            account != call.sender && account == call.recipient ==> self.after(call).history(
                account,
            ) == self.history(account).push(self.next_payment(call)),
            account == call.sender && account == call.recipient ==> self.after(call).history(
                account,
            ) == self.history(account).push(self.next_payment(call)).push(
                self.next_payment(call),
            ),
    {
        let payment = self.next_payment(call);
        lemma_history_push(self.payments, payment, account);
        assert(self.history(account) + entries_of(payment, account) =~= if account == call.sender
            && account == call.recipient {
            self.history(account).push(payment).push(payment)
        } else if account == call.sender || account == call.recipient {
            self.history(account).push(payment)
        } else {
            self.history(account)
        });
    }

    /// Calls keep a ledger well formed, as long as ids do not run out.
    pub proof fn lemma_after_well_formed(self, call: Call)
        requires
            self.well_formed(),
            self.count() < u128::MAX,
        ensures
            self.after(call).well_formed(),
    {
    }

    /// In every history, each entry is a payment that the account sent or
    /// received.
    pub proof fn lemma_history_involves_account(self, account: AccountId)
        ensures
            forall|i: int|
                0 <= i < self.history(account).len() ==> (#[trigger] self.history(
                    account,
                )[i]).involves(account),
    {
        lemma_history_involves(self.payments, account);
    }
}

/// Recording one more payment appends its entries to every history.
pub proof fn lemma_history_push(payments: Seq<Payment>, payment: Payment, account: AccountId)
    ensures
        history_of(payments.push(payment), account) == history_of(payments, account) + entries_of(
            payment,
            account,
        ),
{
    assert(payments.push(payment).drop_last() =~= payments);
}

/// Every entry of an account's history is a payment that the account sent or
/// received.
pub proof fn lemma_history_involves(payments: Seq<Payment>, account: AccountId)
    ensures
        forall|i: int|
            0 <= i < history_of(payments, account).len() ==> (#[trigger] history_of(
                payments,
                account,
            )[i]).involves(account),
    decreases payments.len(),
{
    if payments.len() > 0 {
        lemma_history_involves(payments.drop_last(), account);
        let history = history_of(payments, account);
        let earlier = history_of(payments.drop_last(), account);
        let added = entries_of(payments.last(), account);
        assert forall|i: int| 0 <= i < history.len() implies (#[trigger] history[i]).involves(
            account,
        ) by {
            if i < earlier.len() {
                assert(history[i] == earlier[i]);
            } else {
                assert(history[i] == added[i - earlier.len()]);
            }
        }
    }
}

/// A recorded payment stands in the history of its sender and in that of its
/// recipient, and in no other.
pub proof fn lemma_recorded_with_both_parties(payments: Seq<Payment>, k: int, account: AccountId)
    requires
        0 <= k < payments.len(),
    ensures
        history_of(payments, account).contains(payments[k]) <==> payments[k].involves(account),
    decreases payments.len(),
{
    let history = history_of(payments, account);
    let earlier = history_of(payments.drop_last(), account);
    let added = entries_of(payments.last(), account);
    if payments[k].involves(account) {
        if k == payments.len() - 1 {
            assert(history[earlier.len() as int] == added[0]);
        } else {
            lemma_recorded_with_both_parties(payments.drop_last(), k, account);
            let at = choose|at: int| 0 <= at < earlier.len() && earlier[at] == payments[k];
            assert(history[at] == earlier[at]);
        }
    }
    if history.contains(payments[k]) {
        lemma_history_involves(payments, account);
    }
}

/// Histories are in the order of recording: where the payments are numbered,
/// the ids along a history never go down, and each lies between 1 and the
/// number of payments.
pub proof fn lemma_history_in_order(payments: Seq<Payment>, account: AccountId)
    requires
        numbered(payments),
    ensures
        forall|i: int|
            0 <= i < history_of(payments, account).len() ==> 1 <= (#[trigger] history_of(
                payments,
                account,
            )[i]).id <= payments.len(),
        forall|i: int, j: int|
            0 <= i <= j < history_of(payments, account).len() ==> history_of(
                payments,
                account,
            )[i].id <= history_of(payments, account)[j].id,
    decreases payments.len(),
{
    if payments.len() > 0 {
        let history = history_of(payments, account);
        let earlier = history_of(payments.drop_last(), account);
        let added = entries_of(payments.last(), account);
        assert(numbered(payments.drop_last()));
        lemma_history_in_order(payments.drop_last(), account);
        // An entry is an earlier one, or one of the last payment, whose id
        // is the number of payments.
        assert forall|i: int| 0 <= i < history.len() implies 1 <= (#[trigger] history[i]).id
            <= payments.len() by {
            if i < earlier.len() {
                assert(history[i] == earlier[i]);
            } else {
                assert(history[i] == added[i - earlier.len()]);
            }
        }
        assert forall|i: int, j: int| 0 <= i <= j < history.len() implies history[i].id
            <= history[j].id by {
            if j < earlier.len() {
                assert(history[i] == earlier[i] && history[j] == earlier[j]);
            } else {
                assert(history[j] == added[j - earlier.len()]);
            }
        }
    }
}

} // verus!
