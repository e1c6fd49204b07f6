//! Payment records, the notification of a new record, and errors.

use crate::account::AccountId;
use vstd::prelude::*;

verus! {

/// An amount of value, in the host's native currency unit.
pub type Balance = u128;

/// The record of one completed value transfer. Once recorded it never
/// changes.
#[derive(Debug, PartialEq, Eq)]
pub struct Payment {
    /// Position of the payment among all recorded payments, counted from 1.
    pub id: u128,
    /// The account that paid.
    pub sender: AccountId,
    /// The account that was paid.
    pub recipient: AccountId,
    /// The value moved; positive in every recorded payment.
    pub amount: Balance,
    /// A note the sender attached, if any.
    pub description: Option<String>,
    /// The host's time when the payment was recorded.
    pub timestamp: u64,
}

/// The notification that goes out for each recorded payment.
#[derive(Clone, Copy, Debug, PartialEq, Eq)]
pub struct PaymentCreated {
    pub payment_id: u128,
    pub sender: AccountId,
    pub recipient: AccountId,
    pub amount: Balance,
    pub timestamp: u64,
}

/// Why a request was turned down. The caller can recover from each of them.
#[derive(Clone, Copy, Debug, PartialEq, Eq, Structural)]
pub enum Error {
    /// The balance does not cover the payment.
    InsufficientBalance,
    /// The caller is not the ledger's owner.
    NotOwner,
    /// The value transfer did not complete.
    PaymentFailed,
    /// The attached value is zero.
    InvalidAmount,
}

/// The host could not move the value.
#[derive(Clone, Copy, Debug, PartialEq, Eq, Structural)]
pub struct TransferError;

impl Payment {
    /// The notification that announces this payment.
    pub open spec fn created(self) -> PaymentCreated {
        PaymentCreated {
            payment_id: self.id,
            sender: self.sender,
            recipient: self.recipient,
            amount: self.amount,
            timestamp: self.timestamp,
        }
    }

    /// Whether `account` paid or was paid.
    pub open spec fn involves(self, account: AccountId) -> bool {
        self.sender == account || self.recipient == account
    }

    /// Builds the notification that announces this payment.
    pub fn to_event(&self) -> (event: PaymentCreated)
        ensures
            event == self.created(),
    {
        PaymentCreated {
            payment_id: self.id,
            sender: self.sender,
            recipient: self.recipient,
            amount: self.amount,
            timestamp: self.timestamp,
        }
    }
}

impl Clone for Payment {
    fn clone(&self) -> (copy: Payment)
        ensures
            copy == *self,
    {
        let description = match &self.description {
            Some(text) => Some(text.clone()),
            None => None,
        };
        Payment {
            id: self.id,
            sender: self.sender,
            recipient: self.recipient,
            amount: self.amount,
            description,
            timestamp: self.timestamp,
        }
    }
}

} // verus!
