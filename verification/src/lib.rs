//! A minimal value-transfer ledger.
//!
//! A [`PaymentContract`] records payments between accounts. Each accepted
//! payment gets the next id, is appended to the history of its sender and to
//! the history of its recipient, and is counted. A payment is accepted only
//! if its amount is positive and the value was moved; a call that is turned
//! down leaves the ledger as it was.
//!
//! The ledger performs no I/O. The host that embeds it supplies the caller,
//! the attached value, the time and the outcome of the value transfer, and
//! sends out the notification that [`PaymentContract::send_payment`]
//! returns.
//!
//! - [`account`]: account identities.
//! - [`payment`]: payment records, notifications and errors.
//! - [`ledger`]: the ledger as a mathematical value, with what holds of one
//!   call.
//! - [`trace`]: what holds over any sequence of calls.
//! - [`contract`]: the executable ledger.

pub mod account;
pub mod contract;
mod history;
pub mod ledger;
pub mod payment;
pub mod trace;

pub use account::AccountId;
pub use contract::PaymentContract;
pub use ledger::{Call, Ledger};
pub use payment::{Balance, Error, Payment, PaymentCreated, TransferError};
