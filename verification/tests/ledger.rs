use payment_contract::{AccountId, Error, Payment, PaymentContract, PaymentCreated, TransferError};

fn account(byte: u8) -> AccountId {
    AccountId::from_bytes([byte; 32])
}

fn alice() -> AccountId {
    account(1)
}

fn bob() -> AccountId {
    account(2)
}

fn charlie() -> AccountId {
    account(3)
}

#[test]
fn test_send_payment() {
    let alice = alice();
    let bob = bob();

    // Alice creates the ledger and pays Bob 100.
    let mut contract = PaymentContract::new(alice);
    let payment_id = contract
        .send_payment(bob, Some(String::from("Test payment")), alice, 100, 0, Ok(()))
        .unwrap()
        .payment_id;

    assert_eq!(payment_id, 1);

    let alice_payments = contract.get_payment_history(alice);
    assert_eq!(alice_payments.len(), 1);
    assert_eq!(alice_payments[0].sender, alice);
    assert_eq!(alice_payments[0].recipient, bob);
    assert_eq!(alice_payments[0].amount, 100);
    assert_eq!(alice_payments[0].description, Some(String::from("Test payment")));

    assert_eq!(contract.get_payment_count(), 1);
}

#[test]
fn new_ledger_is_empty() {
    let contract = PaymentContract::new(alice());
    assert_eq!(contract.get_owner(), alice());
    assert_eq!(contract.get_payment_count(), 0);
    assert!(contract.get_payment_history(alice()).is_empty());
    assert!(contract.get_payment_history(bob()).is_empty());
}

#[test]
fn first_payment_is_recorded_for_both_parties() {
    let owner = alice();
    let recipient = bob();
    let mut contract = PaymentContract::new(owner);

    let event = contract
        .send_payment(recipient, Some(String::from("rent")), owner, 100, 1000, Ok(()))
        .unwrap();
    assert_eq!(
        event,
        PaymentCreated { payment_id: 1, sender: owner, recipient, amount: 100, timestamp: 1000 }
    );

    let expected = Payment {
        id: 1,
        sender: owner,
        recipient,
        amount: 100,
        description: Some(String::from("rent")),
        timestamp: 1000,
    };
    assert_eq!(contract.get_payment_history(owner), vec![expected.clone()]);
    assert_eq!(contract.get_payment_history(recipient), vec![expected]);
    assert_eq!(contract.get_payment_count(), 1);
    assert_eq!(contract.get_owner(), owner);
}

#[test]
fn second_payment_gets_the_next_id() {
    let owner = alice();
    let recipient = bob();
    let mut contract = PaymentContract::new(owner);
    contract.send_payment(recipient, Some(String::from("rent")), owner, 100, 1000, Ok(())).unwrap();

    let event = contract.send_payment(owner, None, recipient, 50, 2000, Ok(())).unwrap();
    assert_eq!(event.payment_id, 2);
    assert_eq!(event.sender, recipient);
    assert_eq!(event.recipient, owner);
    assert_eq!(event.amount, 50);
    assert_eq!(event.timestamp, 2000);

    let first = Payment {
        id: 1,
        sender: owner,
        recipient,
        amount: 100,
        description: Some(String::from("rent")),
        timestamp: 1000,
    };
    let second = Payment {
        id: 2,
        sender: recipient,
        recipient: owner,
        amount: 50,
        description: None,
        timestamp: 2000,
    };
    let owner_history = contract.get_payment_history(owner);
    let recipient_history = contract.get_payment_history(recipient);
    assert_eq!(owner_history.len(), 2);
    assert_eq!(recipient_history.len(), 2);
    assert_eq!(owner_history, vec![first.clone(), second.clone()]);
    assert_eq!(recipient_history, vec![first, second]);
    assert_eq!(contract.get_payment_count(), 2);
}

#[test]
fn zero_amount_is_rejected() {
    let mut contract = PaymentContract::new(alice());
    contract.send_payment(bob(), None, alice(), 100, 1000, Ok(())).unwrap();
    let alice_before = contract.get_payment_history(alice());
    let bob_before = contract.get_payment_history(bob());

    let result = contract.send_payment(bob(), Some(String::from("nothing")), alice(), 0, 2000, Ok(()));
    assert_eq!(result, Err(Error::InvalidAmount));
    assert_eq!(contract.get_payment_count(), 1);
    assert_eq!(contract.get_payment_history(alice()), alice_before);
    assert_eq!(contract.get_payment_history(bob()), bob_before);
}

#[test]
fn zero_amount_on_a_new_ledger_records_nothing() {
    let mut contract = PaymentContract::new(alice());
    assert_eq!(contract.send_payment(bob(), None, alice(), 0, 5, Ok(())), Err(Error::InvalidAmount));
    assert_eq!(contract.get_payment_count(), 0);
    assert!(contract.get_payment_history(alice()).is_empty());
    assert!(contract.get_payment_history(bob()).is_empty());
}

#[test]
fn zero_amount_is_checked_before_the_transfer() {
    let mut contract = PaymentContract::new(alice());
    let result = contract.send_payment(bob(), None, alice(), 0, 5, Err(TransferError));
    assert_eq!(result, Err(Error::InvalidAmount));
    assert_eq!(contract.get_payment_count(), 0);
}

#[test]
fn failed_transfer_changes_nothing() {
    let mut contract = PaymentContract::new(alice());
    contract.send_payment(bob(), None, alice(), 7, 10, Ok(())).unwrap();
    let alice_before = contract.get_payment_history(alice());
    let bob_before = contract.get_payment_history(bob());

    let result = contract.send_payment(alice(), None, bob(), 9, 20, Err(TransferError));
    assert_eq!(result, Err(Error::PaymentFailed));
    assert_eq!(contract.get_payment_count(), 1);
    assert_eq!(contract.get_payment_history(alice()), alice_before);
    assert_eq!(contract.get_payment_history(bob()), bob_before);

    // A failed payment to an account that never took part creates no history.
    let result = contract.send_payment(charlie(), None, alice(), 9, 30, Err(TransferError));
    assert_eq!(result, Err(Error::PaymentFailed));
    assert!(contract.get_payment_history(charlie()).is_empty());
    assert_eq!(contract.get_payment_count(), 1);
}

#[test]
fn ids_count_up_without_gaps() {
    let mut contract = PaymentContract::new(alice());
    let mut ids = Vec::new();
    for round in 0..5u64 {
        // Rejected calls in between use up no id.
        assert!(contract.send_payment(bob(), None, alice(), 0, round, Ok(())).is_err());
        assert!(contract.send_payment(charlie(), None, bob(), 3, round, Err(TransferError)).is_err());
        let event = contract.send_payment(charlie(), None, bob(), 3, round, Ok(())).unwrap();
        ids.push(event.payment_id);
        assert_eq!(contract.get_payment_count(), event.payment_id);
    }
    assert_eq!(ids, vec![1, 2, 3, 4, 5]);
    assert_eq!(contract.get_payment_count(), 5);
}

#[test]
fn count_equals_the_number_of_recorded_payments() {
    let mut contract = PaymentContract::new(alice());
    let outcomes = [Ok(()), Err(TransferError), Ok(()), Ok(()), Err(TransferError), Ok(())];
    let amounts = [5u128, 5, 0, 8, 0, 1];
    let mut recorded = 0u128;
    for i in 0..outcomes.len() {
        let result = contract.send_payment(bob(), None, alice(), amounts[i], 1, outcomes[i]);
        assert_eq!(result.is_ok(), amounts[i] > 0 && outcomes[i].is_ok());
        if result.is_ok() {
            recorded += 1;
        }
        assert_eq!(contract.get_payment_count(), recorded);
    }
    assert_eq!(recorded, 3);
    assert_eq!(contract.get_payment_history(alice()).len(), 3);
}

#[test]
fn every_history_entry_involves_its_account() {
    let mut contract = PaymentContract::new(alice());
    contract.send_payment(bob(), None, alice(), 1, 1, Ok(())).unwrap();
    contract.send_payment(charlie(), None, bob(), 2, 2, Ok(())).unwrap();
    contract.send_payment(alice(), None, charlie(), 3, 3, Ok(())).unwrap();
    contract.send_payment(charlie(), None, alice(), 4, 4, Ok(())).unwrap();

    for who in [alice(), bob(), charlie()] {
        let history = contract.get_payment_history(who);
        assert!(!history.is_empty());
        for payment in &history {
            assert!(payment.sender == who || payment.recipient == who);
            assert!(payment.amount > 0);
        }
    }
    let ids = |who: AccountId| -> Vec<u128> {
        contract.get_payment_history(who).iter().map(|p| p.id).collect()
    };
    assert_eq!(ids(alice()), vec![1, 3, 4]);
    assert_eq!(ids(bob()), vec![1, 2]);
    assert_eq!(ids(charlie()), vec![2, 3, 4]);
    assert!(contract.get_payment_history(account(9)).is_empty());
}

#[test]
fn reading_twice_returns_the_same_history() {
    let mut contract = PaymentContract::new(alice());
    contract.send_payment(bob(), Some(String::from("a")), alice(), 1, 1, Ok(())).unwrap();
    contract.send_payment(alice(), None, bob(), 2, 2, Ok(())).unwrap();

    let first = contract.get_payment_history(alice());
    let second = contract.get_payment_history(alice());
    assert_eq!(first, second);
    assert_eq!(contract.get_payment_count(), contract.get_payment_count());
    assert_eq!(contract.get_payment_history(charlie()), contract.get_payment_history(charlie()));
}

#[test]
fn payment_to_oneself_is_appended_twice() {
    let mut contract = PaymentContract::new(alice());
    let event = contract.send_payment(alice(), None, alice(), 11, 77, Ok(())).unwrap();
    assert_eq!(event.payment_id, 1);

    let record =
        Payment { id: 1, sender: alice(), recipient: alice(), amount: 11, description: None, timestamp: 77 };
    assert_eq!(contract.get_payment_history(alice()), vec![record.clone(), record]);
    assert_eq!(contract.get_payment_count(), 1);

    // The next payment still gets the next id and lands behind both entries.
    contract.send_payment(bob(), None, alice(), 1, 78, Ok(())).unwrap();
    let ids: Vec<u128> = contract.get_payment_history(alice()).iter().map(|p| p.id).collect();
    assert_eq!(ids, vec![1, 1, 2]);
    assert_eq!(contract.get_payment_count(), 2);
}

#[test]
fn owner_never_changes() {
    let mut contract = PaymentContract::new(alice());
    contract.send_payment(charlie(), None, bob(), 1, 1, Ok(())).unwrap();
    assert!(contract.send_payment(charlie(), None, bob(), 0, 1, Ok(())).is_err());
    assert_eq!(contract.get_owner(), alice());
}

#[test]
fn largest_amount_and_time_are_recorded_as_given() {
    let mut contract = PaymentContract::new(alice());
    let event = contract.send_payment(bob(), None, alice(), u128::MAX, u64::MAX, Ok(())).unwrap();
    assert_eq!(event.amount, u128::MAX);
    assert_eq!(event.timestamp, u64::MAX);
    let history = contract.get_payment_history(bob());
    assert_eq!(history[0].amount, u128::MAX);
    assert_eq!(history[0].timestamp, u64::MAX);
}

#[test]
fn check_amount_turns_down_zero_only() {
    assert_eq!(PaymentContract::check_amount(0), Err(Error::InvalidAmount));
    assert_eq!(PaymentContract::check_amount(1), Ok(()));
    assert_eq!(PaymentContract::check_amount(u128::MAX), Ok(()));
}

#[test]
fn stored_histories_do_not_alias_what_was_read() {
    let mut contract = PaymentContract::new(alice());
    contract.send_payment(bob(), Some(String::from("x")), alice(), 5, 1, Ok(())).unwrap();
    let mut read = contract.get_payment_history(alice());
    read[0].amount = 999;
    read.clear();
    assert_eq!(contract.get_payment_history(alice()).len(), 1);
    assert_eq!(contract.get_payment_history(alice())[0].amount, 5);
}
