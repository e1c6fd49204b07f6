use payment_contract::{AccountId, Error, Payment, PaymentCreated, TransferError};

#[test]
fn account_keeps_its_bytes() {
    let mut bytes = [0u8; 32];
    for (i, byte) in bytes.iter_mut().enumerate() {
        *byte = i as u8;
    }
    let account = AccountId::from_bytes(bytes);
    assert_eq!(account.to_bytes(), bytes);
}

#[test]
fn accounts_are_equal_exactly_when_their_bytes_are() {
    let a = AccountId::from_bytes([7; 32]);
    let b = AccountId::from_bytes([7; 32]);
    assert_eq!(a, b);

    // A difference in any one byte, the first and the last included, tells two accounts apart.
    for i in 0..32 {
        let mut bytes = [7u8; 32];
        bytes[i] = 8;
        assert_ne!(a, AccountId::from_bytes(bytes));
    }
}

#[test]
fn event_carries_the_fields_of_the_payment() {
    let payment = Payment {
        id: 42,
        sender: AccountId::from_bytes([1; 32]),
        recipient: AccountId::from_bytes([2; 32]),
        amount: 1_000,
        description: Some(String::from("invoice 7")),
        timestamp: 123_456,
    };
    assert_eq!(
        payment.to_event(),
        PaymentCreated {
            payment_id: 42,
            sender: AccountId::from_bytes([1; 32]),
            recipient: AccountId::from_bytes([2; 32]),
            amount: 1_000,
            timestamp: 123_456,
        }
    );
}

#[test]
fn cloned_payment_equals_its_source() {
    let with_note = Payment {
        id: 3,
        sender: AccountId::from_bytes([4; 32]),
        recipient: AccountId::from_bytes([5; 32]),
        amount: 6,
        description: Some(String::from("note")),
        timestamp: 7,
    };
    assert_eq!(with_note.clone(), with_note);

    let without_note = Payment {
        id: 3,
        sender: AccountId::from_bytes([4; 32]),
        recipient: AccountId::from_bytes([5; 32]),
        amount: 6,
        description: None,
        timestamp: 7,
    };
    assert_eq!(without_note.clone(), without_note);
    assert_ne!(with_note, without_note);
}

#[test]
fn errors_are_distinct() {
    let all = [Error::InsufficientBalance, Error::NotOwner, Error::PaymentFailed, Error::InvalidAmount];
    for i in 0..all.len() {
        for j in 0..all.len() {
            assert_eq!(all[i] == all[j], i == j);
        }
    }
    assert_eq!(TransferError, TransferError);
}
