use burn_relay::storage::{consume, delete_message, retrieve_message, store_message};
use burn_relay::storage::{plan_take, take_message, update_message_views};
use burn_relay::storage::{Consumption, Message, MessageTable, NewMessage, RowChange, StoreError};

fn new_message(views_left: i32) -> NewMessage<'static> {
    NewMessage { nonce: "0102030405060708090a0b0c", ciphertext: "abcdef", views_left }
}

#[test]
fn consume_decides_by_the_views_left() {
    assert_eq!(consume(1), Consumption::LastView);
    assert_eq!(consume(2), Consumption::Remaining(1));
    assert_eq!(consume(3), Consumption::Remaining(2));
    assert_eq!(consume(i32::MAX), Consumption::Remaining(i32::MAX - 1));
    assert_eq!(consume(0), Consumption::Exhausted);
    assert_eq!(consume(-1), Consumption::Exhausted);
    assert_eq!(consume(i32::MIN), Consumption::Exhausted);
}

#[test]
fn a_new_table_is_empty() {
    let mut table = MessageTable::new();
    assert_eq!(table.len(), 0);
    assert_eq!(retrieve_message(&table, 1).unwrap_err(), StoreError::NotFound);
    assert_eq!(take_message(&mut table, 1).unwrap_err(), StoreError::NotFound);
    assert_eq!(delete_message(&mut table, 1), Ok(0));
    assert_eq!(update_message_views(&mut table, 1, 5), Ok(0));
    assert_eq!(table.len(), 0);
}

#[test]
fn store_gives_fresh_identifiers_from_one() {
    let mut table = MessageTable::new();
    let first = store_message(&mut table, &new_message(1)).unwrap();
    let second = store_message(&mut table, &new_message(2)).unwrap();
    let third = store_message(&mut table, &new_message(3)).unwrap();
    assert_eq!(first.id, 1);
    assert_eq!(second.id, 2);
    assert_eq!(third.id, 3);
    assert_eq!(table.len(), 3);
    assert_eq!(first.nonce, "0102030405060708090a0b0c");
    assert_eq!(first.ciphertext, "abcdef");
    assert_eq!(first.views_left, 1);
    assert_eq!(third.views_left, 3);
}

#[test]
fn identifiers_are_not_used_again() {
    let mut table = MessageTable::new();
    let first = store_message(&mut table, &new_message(1)).unwrap();
    assert_eq!(delete_message(&mut table, first.id), Ok(1));
    let second = store_message(&mut table, &new_message(1)).unwrap();
    assert_eq!(second.id, 2);
    assert!(take_message(&mut table, second.id).is_ok());
    let third = store_message(&mut table, &new_message(1)).unwrap();
    assert_eq!(third.id, 3);
    assert_eq!(retrieve_message(&table, 1).unwrap_err(), StoreError::NotFound);
    assert_eq!(retrieve_message(&table, 2).unwrap_err(), StoreError::NotFound);
}

#[test]
fn store_refuses_a_quota_below_one() {
    let mut table = MessageTable::new();
    assert_eq!(store_message(&mut table, &new_message(0)).unwrap_err(), StoreError::InvalidQuota);
    assert_eq!(store_message(&mut table, &new_message(-1)).unwrap_err(), StoreError::InvalidQuota);
    assert_eq!(
        store_message(&mut table, &new_message(i32::MIN)).unwrap_err(),
        StoreError::InvalidQuota
    );
    assert_eq!(table.len(), 0);
    assert_eq!(store_message(&mut table, &new_message(1)).unwrap().id, 1);
}

#[test]
fn store_refuses_once_identifiers_run_out() {
    let mut table = MessageTable::starting_at(i64::MAX - 1).unwrap();
    let last = store_message(&mut table, &new_message(1)).unwrap();
    assert_eq!(last.id, i64::MAX - 1);
    assert_eq!(store_message(&mut table, &new_message(1)).unwrap_err(), StoreError::IdsExhausted);
    assert_eq!(store_message(&mut table, &new_message(0)).unwrap_err(), StoreError::InvalidQuota);
    assert_eq!(table.len(), 1);
    assert!(take_message(&mut table, last.id).is_ok());
    assert_eq!(store_message(&mut table, &new_message(1)).unwrap_err(), StoreError::IdsExhausted);
}

#[test]
fn starting_at_needs_a_positive_identifier() {
    assert!(MessageTable::starting_at(0).is_none());
    assert!(MessageTable::starting_at(-1).is_none());
    assert!(MessageTable::starting_at(i64::MIN).is_none());
    let mut table = MessageTable::starting_at(41).unwrap();
    assert_eq!(store_message(&mut table, &new_message(1)).unwrap().id, 41);
    assert_eq!(store_message(&mut table, &new_message(1)).unwrap().id, 42);
    let mut full = MessageTable::starting_at(i64::MAX).unwrap();
    assert_eq!(store_message(&mut full, &new_message(1)).unwrap_err(), StoreError::IdsExhausted);
}

#[test]
fn retrieve_does_not_consume() {
    let mut table = MessageTable::new();
    let stored = store_message(&mut table, &new_message(1)).unwrap();
    for _ in 0..5 {
        let found = retrieve_message(&table, stored.id).unwrap();
        assert_eq!(found.id, stored.id);
        assert_eq!(found.nonce, "0102030405060708090a0b0c");
        assert_eq!(found.ciphertext, "abcdef");
        assert_eq!(found.views_left, 1);
    }
    assert!(take_message(&mut table, stored.id).is_ok());
    assert_eq!(retrieve_message(&table, stored.id).unwrap_err(), StoreError::NotFound);
}

#[test]
fn take_hands_out_the_stored_record() {
    let mut table = MessageTable::new();
    let other = NewMessage { nonce: "ffffffffffffffffffffffff", ciphertext: "00", views_left: 1 };
    let a = store_message(&mut table, &new_message(1)).unwrap();
    let b = store_message(&mut table, &other).unwrap();
    let taken_b = take_message(&mut table, b.id).unwrap();
    assert_eq!(taken_b.nonce, "ffffffffffffffffffffffff");
    assert_eq!(taken_b.ciphertext, "00");
    let taken_a = take_message(&mut table, a.id).unwrap();
    assert_eq!(taken_a.nonce, "0102030405060708090a0b0c");
    assert_eq!(taken_a.ciphertext, "abcdef");
}

#[test]
fn take_counts_views_down_and_removes_the_row_with_the_last() {
    let mut table = MessageTable::new();
    let stored = store_message(&mut table, &new_message(3)).unwrap();
    assert!(take_message(&mut table, stored.id).is_ok());
    assert_eq!(retrieve_message(&table, stored.id).unwrap().views_left, 2);
    assert!(take_message(&mut table, stored.id).is_ok());
    assert_eq!(retrieve_message(&table, stored.id).unwrap().views_left, 1);
    assert_eq!(table.len(), 1);
    assert!(take_message(&mut table, stored.id).is_ok());
    assert_eq!(table.len(), 0);
    assert_eq!(retrieve_message(&table, stored.id).unwrap_err(), StoreError::NotFound);
    assert_eq!(take_message(&mut table, stored.id).unwrap_err(), StoreError::NotFound);
}

#[test]
fn exactly_as_many_takes_succeed_as_there_are_views() {
    for quota in 1..=6 {
        let mut table = MessageTable::new();
        let stored = store_message(&mut table, &new_message(quota)).unwrap();
        for _ in 0..quota {
            let record = take_message(&mut table, stored.id).unwrap();
            assert_eq!(record.ciphertext, "abcdef");
        }
        for _ in 0..3 {
            assert_eq!(take_message(&mut table, stored.id).unwrap_err(), StoreError::NotFound);
        }
    }
}

#[test]
fn more_takes_than_views_are_served_up_to_the_views() {
    let quota = 4;
    let asked = 11;
    let mut table = MessageTable::new();
    let target = store_message(&mut table, &new_message(quota)).unwrap();
    let bystander = store_message(&mut table, &new_message(2)).unwrap();
    let mut outcomes: Vec<bool> = Vec::new();
    for turn in 0..asked {
        if turn % 3 == 1 {
            let _ = take_message(&mut table, bystander.id);
        }
        outcomes.push(take_message(&mut table, target.id).is_ok());
    }
    let served = outcomes.iter().filter(|ok| **ok).count();
    assert_eq!(served, 4);
    assert_eq!(outcomes.len() - served, 7);
    assert!(outcomes[..4].iter().all(|ok| *ok));
    assert!(outcomes[4..].iter().all(|ok| !*ok));
}

#[test]
fn takes_of_other_messages_change_nothing() {
    let mut table = MessageTable::new();
    let a = store_message(&mut table, &new_message(2)).unwrap();
    let b = store_message(&mut table, &new_message(2)).unwrap();
    assert!(take_message(&mut table, a.id).is_ok());
    assert!(take_message(&mut table, a.id).is_ok());
    assert!(take_message(&mut table, a.id).is_err());
    assert_eq!(retrieve_message(&table, b.id).unwrap().views_left, 2);
    assert!(take_message(&mut table, b.id).is_ok());
    assert!(take_message(&mut table, b.id).is_ok());
    assert!(take_message(&mut table, b.id).is_err());
}

#[test]
fn delete_is_no_error_the_second_time() {
    let mut table = MessageTable::new();
    let stored = store_message(&mut table, &new_message(5)).unwrap();
    assert_eq!(delete_message(&mut table, stored.id), Ok(1));
    assert_eq!(delete_message(&mut table, stored.id), Ok(0));
    assert_eq!(delete_message(&mut table, stored.id), Ok(0));
    assert_eq!(delete_message(&mut table, 77), Ok(0));
    assert_eq!(table.len(), 0);
    assert_eq!(take_message(&mut table, stored.id).unwrap_err(), StoreError::NotFound);
}

#[test]
fn delete_leaves_other_messages() {
    let mut table = MessageTable::new();
    let a = store_message(&mut table, &new_message(1)).unwrap();
    let b = store_message(&mut table, &new_message(1)).unwrap();
    assert_eq!(delete_message(&mut table, a.id), Ok(1));
    assert_eq!(table.len(), 1);
    assert_eq!(retrieve_message(&table, b.id).unwrap().id, b.id);
}

#[test]
fn update_lowers_the_views_of_one_message() {
    let mut table = MessageTable::new();
    let a = store_message(&mut table, &new_message(5)).unwrap();
    let b = store_message(&mut table, &new_message(5)).unwrap();
    assert_eq!(update_message_views(&mut table, a.id, 2), Ok(1));
    assert_eq!(update_message_views(&mut table, 99, 2), Ok(0));
    let found = retrieve_message(&table, a.id).unwrap();
    assert_eq!(found.views_left, 2);
    assert_eq!(found.nonce, "0102030405060708090a0b0c");
    assert_eq!(found.ciphertext, "abcdef");
    assert_eq!(retrieve_message(&table, b.id).unwrap().views_left, 5);
    assert_eq!(update_message_views(&mut table, a.id, 2), Ok(1));
    assert!(take_message(&mut table, a.id).is_ok());
    assert!(take_message(&mut table, a.id).is_ok());
    assert!(take_message(&mut table, a.id).is_err());
    assert_eq!(table.len(), 1);
}

#[test]
fn update_never_raises_views() {
    let mut table = MessageTable::new();
    let stored = store_message(&mut table, &new_message(3)).unwrap();
    assert_eq!(update_message_views(&mut table, stored.id, 4), Err(StoreError::InvalidQuota));
    assert_eq!(
        update_message_views(&mut table, stored.id, i32::MAX),
        Err(StoreError::InvalidQuota)
    );
    assert_eq!(retrieve_message(&table, stored.id).unwrap().views_left, 3);
    assert_eq!(update_message_views(&mut table, stored.id, 3), Ok(1));
    assert_eq!(update_message_views(&mut table, stored.id, 1), Ok(1));
    assert_eq!(update_message_views(&mut table, stored.id, 2), Err(StoreError::InvalidQuota));
    assert_eq!(retrieve_message(&table, stored.id).unwrap().views_left, 1);
}

#[test]
fn update_never_sets_views_below_one() {
    let mut table = MessageTable::new();
    let stored = store_message(&mut table, &new_message(3)).unwrap();
    for views in [0, -1, i32::MIN] {
        assert_eq!(
            update_message_views(&mut table, stored.id, views),
            Err(StoreError::InvalidQuota)
        );
    }
    assert_eq!(retrieve_message(&table, stored.id).unwrap().views_left, 3);
}

#[test]
fn update_of_a_missing_message_changes_no_row_whatever_the_count() {
    let mut table = MessageTable::new();
    let stored = store_message(&mut table, &new_message(3)).unwrap();
    for views in [i32::MIN, -1, 0, 1, 2, 3, 4, i32::MAX] {
        assert_eq!(update_message_views(&mut table, 99, views), Ok(0));
        assert_eq!(update_message_views(&mut table, -5, views), Ok(0));
    }
    assert_eq!(table.len(), 1);
    assert_eq!(retrieve_message(&table, stored.id).unwrap().views_left, 3);
    assert_eq!(retrieve_message(&table, 99).unwrap_err(), StoreError::NotFound);
    assert_eq!(delete_message(&mut table, stored.id), Ok(1));
    for views in [i32::MIN, 0, 1, i32::MAX] {
        assert_eq!(update_message_views(&mut table, stored.id, views), Ok(0));
    }
    assert_eq!(table.len(), 0);
    assert_eq!(take_message(&mut table, stored.id).unwrap_err(), StoreError::NotFound);
}

#[test]
fn a_gone_message_stays_gone() {
    let mut table = MessageTable::new();
    let stored = store_message(&mut table, &new_message(1)).unwrap();
    assert!(take_message(&mut table, stored.id).is_ok());
    assert_eq!(update_message_views(&mut table, stored.id, 1), Ok(0));
    let _ = store_message(&mut table, &new_message(9)).unwrap();
    assert_eq!(take_message(&mut table, stored.id).unwrap_err(), StoreError::NotFound);
    assert_eq!(retrieve_message(&table, stored.id).unwrap_err(), StoreError::NotFound);
}

fn row(views_left: i32) -> Message {
    Message {
        id: 7,
        nonce: String::from("0102030405060708090a0b0c"),
        ciphertext: String::from("abcdef"),
        views_left,
    }
}

#[test]
fn a_take_of_no_row_changes_nothing() {
    let (change, record) = plan_take(None);
    assert_eq!(change, RowChange::Keep);
    assert!(record.is_none());
}

#[test]
fn a_take_of_the_last_view_removes_the_row() {
    let (change, record) = plan_take(Some(&row(1)));
    assert_eq!(change, RowChange::Delete);
    let record = record.unwrap();
    assert_eq!(record.nonce, "0102030405060708090a0b0c");
    assert_eq!(record.ciphertext, "abcdef");
}

#[test]
fn a_take_of_an_earlier_view_counts_down() {
    let (change, record) = plan_take(Some(&row(2)));
    assert_eq!(change, RowChange::SetViews(1));
    assert_eq!(record.unwrap().ciphertext, "abcdef");
    let (change, record) = plan_take(Some(&row(3)));
    assert_eq!(change, RowChange::SetViews(2));
    assert_eq!(record.unwrap().nonce, "0102030405060708090a0b0c");
    let (change, record) = plan_take(Some(&row(i32::MAX)));
    assert_eq!(change, RowChange::SetViews(i32::MAX - 1));
    assert!(record.is_some());
}

#[test]
fn a_row_without_views_is_never_handed_out() {
    for views in [0, -1, i32::MIN] {
        let (change, record) = plan_take(Some(&row(views)));
        assert_eq!(change, RowChange::Delete);
        assert!(record.is_none());
    }
}

#[test]
fn a_message_copy_keeps_every_field() {
    let mut table = MessageTable::new();
    let stored = store_message(&mut table, &new_message(7)).unwrap();
    let copy = stored.clone();
    assert_eq!(copy.id, stored.id);
    assert_eq!(copy.nonce, stored.nonce);
    assert_eq!(copy.ciphertext, stored.ciphertext);
    assert_eq!(copy.views_left, 7);
    let record = stored.record();
    assert_eq!(record.nonce, stored.nonce);
    assert_eq!(record.ciphertext, stored.ciphertext);
}
