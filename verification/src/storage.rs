//! The consumable message store: sealed records under fresh identifiers, each
//! with the number of views it still allows.
//!
//! `MessageTable` keeps the rows in memory. Every operation takes the table
//! by exclusive reference, so a take reads, decides and writes as one
//! indivisible step. `consume` is the decision alone, for a store that keeps
//! its rows elsewhere and applies the decision inside a transaction of its
//! own.

use crate::cipher::{SealedRecord, SealedRecordView};
use std::collections::HashMap;
use vstd::prelude::*;

verus! {

broadcast use vstd::std_specs::hash::group_hash_axioms;

/// A stored message: a sealed record, its identifier and its remaining views.
#[derive(Debug)]
pub struct Message {
    pub id: i64,
    pub nonce: String,
    pub ciphertext: String,
    pub views_left: i32,
}

/// A message that is about to be stored and has no identifier yet.
#[derive(Debug)]
pub struct NewMessage<'a> {
    pub nonce: &'a str,
    pub ciphertext: &'a str,
    pub views_left: i32,
}

/// What a stored message holds, as plain values.
pub struct MessageView {
    pub id: i64,
    pub nonce: Seq<char>,
    pub ciphertext: Seq<char>,
    pub views_left: i32,
}

impl MessageView {
    /// The sealed record that the message carries.
    pub open spec fn record(self) -> SealedRecordView {
        SealedRecordView { nonce: self.nonce, ciphertext: self.ciphertext }
    }
}

impl View for Message {
    type V = MessageView;

    open spec fn view(&self) -> MessageView {
        MessageView {
            id: self.id,
            nonce: self.nonce@,
            ciphertext: self.ciphertext@,
            views_left: self.views_left,
        }
    }
}

impl Clone for Message {
    fn clone(&self) -> (copy: Message)
        ensures
            copy@ == self@,
    {
        Message {
            id: self.id,
            nonce: self.nonce.clone(),
            ciphertext: self.ciphertext.clone(),
            views_left: self.views_left,
        }
    }
}

impl Message {
    /// The sealed record that the message carries.
    pub fn record(&self) -> (record: SealedRecord)
        ensures
            record@ == self@.record(),
    {
        SealedRecord { nonce: self.nonce.clone(), ciphertext: self.ciphertext.clone() }
    }
}

impl<'a> NewMessage<'a> {
    /// The sealed record that the message carries.
    pub open spec fn record(&self) -> SealedRecordView {
        SealedRecordView { nonce: self.nonce@, ciphertext: self.ciphertext@ }
    }
}

/// Why the store did not do what was asked.
#[derive(Clone, Copy, Debug, PartialEq, Eq, Structural)]
pub enum StoreError {
    /// No message is stored under the identifier, or none that may still be
    /// viewed.
    NotFound,
    /// A message must allow at least one view, and never more than it
    /// allowed before.
    InvalidQuota,
    /// The table has given out every identifier it has.
    IdsExhausted,
}

/// What a take does to a message, given the views it has left.
#[derive(Clone, Copy, Debug, PartialEq, Eq, Structural)]
pub enum Consumption {
    /// Nothing is left: the row is removed and nothing is handed out.
    Exhausted,
    /// This is the last view: the record is handed out and the row removed.
    LastView,
    /// The record is handed out and the row keeps this many views.
    Remaining(i32),
}

/// The decision of a take on a row with `views_left` views: a row without
/// views is spent, the last view removes the row, any other view counts it
/// down by one.
pub open spec fn consume_spec(views_left: i32) -> Consumption {
    if views_left <= 0 {
        Consumption::Exhausted
    } else if views_left == 1 {
        Consumption::LastView
    } else {
        Consumption::Remaining((views_left - 1) as i32)
    }
}

/// Decides what a take does to a row that has `views_left` views.
pub fn consume(views_left: i32) -> (decision: Consumption)
    ensures
        decision == consume_spec(views_left),
{
    if views_left <= 0 {
        Consumption::Exhausted
    } else if views_left == 1 {
        Consumption::LastView
    } else {
        Consumption::Remaining(views_left - 1)
    }
}

/// What a take does to the row it found.
#[derive(Clone, Copy, Debug, PartialEq, Eq, Structural)]
pub enum RowChange {
    /// The row stays as it is, or there is none.
    Keep,
    /// The row is removed.
    Delete,
    /// The row stays, with this many views.
    SetViews(i32),
}

/// The table as a mapping from identifier to message, with the identifier
/// that the next stored message will get.
pub struct TableView {
    pub rows: Map<i64, MessageView>,
    pub next_id: int,
}

impl TableView {
    /// Every row sits under its own identifier and has a view left, and
    /// every identifier in use is positive and below the next one to be given
    /// out.
    pub open spec fn wf(self) -> bool {
        &&& 1 <= self.next_id <= i64::MAX
        &&& forall|id: i64| #[trigger]
            self.rows.contains_key(id) ==> {
                &&& 1 <= id < self.next_id
                &&& self.rows[id].id == id
                &&& self.rows[id].views_left >= 1
            }
    }

    /// Whether the views of the message under `id` may be set to
    /// `views_left`: to one view at least, and to no more than it has. Where
    /// there is no such message nothing is set, and any count will do.
    pub open spec fn may_set_views(self, id: i64, views_left: i32) -> bool {
        self.rows.contains_key(id) ==> 1 <= views_left <= self.rows[id].views_left
    }

    /// Whether the table `later` can come after this one: no identifier that
    /// was given out is given out again, and no message has gained a view.
    /// A message that is gone stays gone.
    pub open spec fn precedes(self, later: TableView) -> bool {
        &&& self.next_id <= later.next_id
        &&& forall|id: i64| id < self.next_id ==> #[trigger] later.views(id) <= self.views(id)
    }

    /// The table after `record` was stored with `views_left` views, under the
    /// next identifier.
    pub open spec fn put(self, record: SealedRecordView, views_left: i32) -> TableView {
        TableView {
            rows: self.rows.insert(
                self.next_id as i64,
                MessageView {
                    id: self.next_id as i64,
                    nonce: record.nonce,
                    ciphertext: record.ciphertext,
                    views_left,
                },
            ),
            next_id: self.next_id + 1,
        }
    }

    /// The table after the row under `id`, if there is one, was removed.
    pub open spec fn delete(self, id: i64) -> TableView {
        TableView { rows: self.rows.remove(id), next_id: self.next_id }
    }

    /// The table after the row under `id`, if there is one, had its views set
    /// to `views_left`.
    pub open spec fn with_views(self, id: i64, views_left: i32) -> TableView {
        if self.rows.contains_key(id) {
            TableView {
                rows: self.rows.insert(id, MessageView { views_left, ..self.rows[id] }),
                next_id: self.next_id,
            }
        } else {
            self
        }
    }

    /// What one take of `id` hands out: the record of the row as it was read,
    /// unless the row is missing or spent.
    pub open spec fn taken(self, id: i64) -> Option<SealedRecordView> {
        if self.rows.contains_key(id) && consume_spec(self.rows[id].views_left)
            != Consumption::Exhausted {
            Some(self.rows[id].record())
        } else {
            None
        }
    }

    /// The table after one take of `id`.
    pub open spec fn after_take(self, id: i64) -> TableView {
        if self.rows.contains_key(id) {
            match consume_spec(self.rows[id].views_left) {
                Consumption::Exhausted => self.delete(id),
                Consumption::LastView => self.delete(id),
                Consumption::Remaining(left) => self.with_views(id, left),
            }
        } else {
            self
        }
    }

    /// The table after `change` was made to the row under `id`.
    pub open spec fn changed(self, id: i64, change: RowChange) -> TableView {
        match change {
            RowChange::Keep => self,
            RowChange::Delete => self.delete(id),
            RowChange::SetViews(views_left) => self.with_views(id, views_left),
        }
    }

    /// The views that the row under `id` still allows; none where there is no
    /// such row or the row is spent.
    pub open spec fn views(self, id: i64) -> nat {
        if self.rows.contains_key(id) && self.rows[id].views_left > 0 {
            self.rows[id].views_left as nat
        } else {
            0
        }
    }

    /// The table after `count` takes of `id`, one after the other.
    pub open spec fn after_takes(self, id: i64, count: nat) -> TableView
        decreases count,
    {
        if count == 0 {
            self
        } else {
            self.after_take(id).after_takes(id, (count - 1) as nat)
        }
    }

    /// The table after one take of each identifier in `ids`, in that order.
    pub open spec fn after_take_each(self, ids: Seq<i64>) -> TableView
        decreases ids.len(),
    {
        if ids.len() == 0 {
            self
        } else {
            self.after_take(ids[0]).after_take_each(ids.drop_first())
        }
    }

    /// How many of the takes in `ids`, made in that order, ask for `id` and
    /// are handed its record.
    pub open spec fn served(self, ids: Seq<i64>, id: i64) -> nat
        decreases ids.len(),
    {
        if ids.len() == 0 {
            0
        } else {
            let here: nat = if ids[0] == id && self.taken(id) is Some {
                1
            } else {
                0
            };
            here + self.after_take(ids[0]).served(ids.drop_first(), id)
        }
    }
}

/// How many of the takes in `ids` ask for `id`.
pub open spec fn requests(ids: Seq<i64>, id: i64) -> nat
    decreases ids.len(),
{
    if ids.len() == 0 {
        0
    } else {
        let here: nat = if ids[0] == id {
            1
        } else {
            0
        };
        here + requests(ids.drop_first(), id)
    }
}

/// What a table holds under `id`, given that `found` is what a lookup of
/// `id` gave.
pub open spec fn holds(table: TableView, id: i64, found: Option<MessageView>) -> bool {
    match found {
        Some(row) => table.rows.contains_key(id) && table.rows[id] == row,
        None => !table.rows.contains_key(id),
    }
}

/// Plans a take from the row that a lookup found: the change to make to that
/// row and the record to hand out. Made to any table that holds the row, the
/// change is the take of that table, and the record the one that the take
/// hands out. A store that keeps its rows elsewhere looks the row up, makes
/// the change and hands out the record, all within one transaction.
pub fn plan_take(found: Option<&Message>) -> (plan: (RowChange, Option<SealedRecord>))
    ensures
        match found {
            Some(row) => match consume_spec(row.views_left) {
                Consumption::Exhausted => plan.0 == RowChange::Delete && plan.1 is None,
                Consumption::LastView => plan.0 == RowChange::Delete && plan.1 is Some
                    && plan.1.unwrap()@ == row@.record(),
                Consumption::Remaining(left) => plan.0 == RowChange::SetViews(left) && plan.1
                    is Some && plan.1.unwrap()@ == row@.record(),
            },
            None => plan.0 == RowChange::Keep && plan.1 is None,
        },
        forall|table: TableView, id: i64|
            holds(
                table,
                id,
                match found {
                    Some(row) => Some(row@),
                    None => None,
                },
            ) ==> #[trigger] table.changed(id, plan.0) == table.after_take(id) && match plan.1 {
                Some(record) => table.taken(id) == Some(record@),
                None => table.taken(id) is None,
            },
{
    match found {
        Some(row) => match consume(row.views_left) {
            Consumption::Exhausted => (RowChange::Delete, None),
            Consumption::LastView => (RowChange::Delete, Some(row.record())),
            Consumption::Remaining(left) => (RowChange::SetViews(left), Some(row.record())),
        },
        None => (RowChange::Keep, None),
    }
}

/// The rows of a table as plain values.
pub open spec fn rows_view(rows: Map<i64, Message>) -> Map<i64, MessageView> {
    rows.map_values(|row: Message| row@)
}

/// An in-memory table of messages.
pub struct MessageTable {
    rows: HashMap<i64, Message>,
    next_id: i64,
}

impl View for MessageTable {
    type V = TableView;

    closed spec fn view(&self) -> TableView {
        TableView { rows: rows_view(self.rows@), next_id: self.next_id as int }
    }
}

impl MessageTable {
    /// The table's invariant.
    pub open spec fn wf(&self) -> bool {
        self@.wf()
    }

    /// An empty table, whose first message will get the identifier 1.
    pub fn new() -> (table: MessageTable)
        ensures
            table.wf(),
            table@.rows == Map::<i64, MessageView>::empty(),
            table@.next_id == 1,
    {
        let table = MessageTable { rows: HashMap::new(), next_id: 1 };
        assert(table@.rows =~= Map::<i64, MessageView>::empty());
        table
    }

    /// An empty table whose first message will get the identifier `next_id`,
    /// or `None` where `next_id` is not positive.
    pub fn starting_at(next_id: i64) -> (table: Option<MessageTable>)
        ensures
            match table {
                Some(table) => {
                    &&& next_id >= 1
                    &&& table.wf()
                    &&& table@.rows == Map::<i64, MessageView>::empty()
                    &&& table@.next_id == next_id
                },
                None => next_id < 1,
            },
    {
        if next_id < 1 {
            return None;
        }
        let table = MessageTable { rows: HashMap::new(), next_id };
        assert(table@.rows =~= Map::<i64, MessageView>::empty());
        Some(table)
    }

    /// How many messages the table holds.
    pub fn len(&self) -> (count: usize)
        ensures
            count == self@.rows.len(),
    {
        proof {
            lemma_rows_view_len(self.rows@);
        }
        self.rows.len()
    }
}

/// A table has as many rows as it has identifiers in use.
proof fn lemma_rows_view_len(rows: Map<i64, Message>)
    requires
        rows.dom().finite(),
    ensures
        rows_view(rows).len() == rows.len(),
        rows_view(rows).dom() == rows.dom(),
{
    assert(rows_view(rows).dom() =~= rows.dom());
}

/// Stores a new message under a fresh identifier and returns the row. A
/// message without a positive number of views is refused, and so is any
/// message once the identifiers have run out; the table then stays as it was.
pub fn store_message(table: &mut MessageTable, new_msg: &NewMessage<'_>) -> (stored: Result<
    Message,
    StoreError,
>)
    requires
        old(table).wf(),
    ensures
        final(table).wf(),
        match stored {
            Ok(message) => {
                &&& new_msg.views_left >= 1
                &&& old(table)@.next_id < i64::MAX
                &&& final(table)@ == old(table)@.put(new_msg.record(), new_msg.views_left)
                &&& message.id == old(table)@.next_id
                &&& message@ == final(table)@.rows[message.id]
            },
            Err(e) => {
                &&& final(table)@ == old(table)@
                &&& e == if new_msg.views_left < 1 {
                    StoreError::InvalidQuota
                } else {
                    StoreError::IdsExhausted
                }
                &&& new_msg.views_left < 1 || old(table)@.next_id == i64::MAX
            },
        },
{
    if new_msg.views_left < 1 {
        return Err(StoreError::InvalidQuota);
    }
    if table.next_id == i64::MAX {
        return Err(StoreError::IdsExhausted);
    }
    let id: i64 = table.next_id;
    let row = Message {
        id,
        nonce: new_msg.nonce.to_owned(),
        ciphertext: new_msg.ciphertext.to_owned(),
        views_left: new_msg.views_left,
    };
    let stored = row.clone();
    table.rows.insert(id, row);
    table.next_id = id + 1;
    assert(table@.rows =~= old(table)@.put(new_msg.record(), new_msg.views_left).rows);
    Ok(stored)
}

/// Looks a message up without consuming a view.
pub fn retrieve_message(table: &MessageTable, message_id: i64) -> (found: Result<
    Message,
    StoreError,
>)
    ensures
        match found {
            Ok(message) => table@.rows.contains_key(message_id) && message@
                == table@.rows[message_id],
            Err(e) => e == StoreError::NotFound && !table@.rows.contains_key(message_id),
        },
{
    match table.rows.get(&message_id) {
        Some(row) => Ok(row.clone()),
        None => Err(StoreError::NotFound),
    }
}

/// Lowers the remaining views of the message under `message_id` and returns
/// the number of rows changed: 1, or 0 where there is no such message,
/// whatever the count. The views of a message are never raised, and never set
/// below one: such a count is refused and the table stays as it was.
pub fn update_message_views(table: &mut MessageTable, message_id: i64, new_views_left: i32) -> (changed:
    Result<usize, StoreError>)
    requires
        old(table).wf(),
    ensures
        final(table).wf(),
        !old(table)@.rows.contains_key(message_id) ==> changed == Ok::<usize, StoreError>(0)
            && final(table)@ == old(table)@,
        match changed {
            Ok(count) => {
                &&& old(table)@.may_set_views(message_id, new_views_left)
                &&& final(table)@ == old(table)@.with_views(message_id, new_views_left)
                &&& count == if old(table)@.rows.contains_key(message_id) {
                    1usize
                } else {
                    0usize
                }
            },
            Err(e) => {
                &&& e == StoreError::InvalidQuota
                &&& old(table)@.rows.contains_key(message_id)
                &&& new_views_left < 1 || new_views_left > old(table)@.rows[message_id].views_left
                &&& final(table)@ == old(table)@
            },
        },
{
    match table.rows.get(&message_id) {
        Some(row) => {
            if new_views_left < 1 || new_views_left > row.views_left {
                return Err(StoreError::InvalidQuota);
            }
        },
        None => {
            return Ok(0);
        },
    }
    set_views(table, message_id, new_views_left);
    Ok(1)
}

/// Sets the views of a row that is there.
fn set_views(table: &mut MessageTable, message_id: i64, views_left: i32)
    requires
        old(table).wf(),
        old(table)@.rows.contains_key(message_id),
        views_left >= 1,
    ensures
        final(table).wf(),
        final(table)@ == old(table)@.with_views(message_id, views_left),
{
    match table.rows.remove(&message_id) {
        Some(row) => {
            let row = Message {
                id: row.id,
                nonce: row.nonce,
                ciphertext: row.ciphertext,
                views_left,
            };
            table.rows.insert(message_id, row);
            assert(table@.rows =~= old(table)@.with_views(message_id, views_left).rows);
        },
        None => {},
    }
}

/// Removes the message under `message_id` and returns the number of rows
/// removed: 1, or 0 where there was no such message. Never an error.
pub fn delete_message(table: &mut MessageTable, message_id: i64) -> (removed: Result<
    usize,
    StoreError,
>)
    requires
        old(table).wf(),
    ensures
        final(table).wf(),
        final(table)@ == old(table)@.delete(message_id),
        removed == Ok::<usize, StoreError>(
            if old(table)@.rows.contains_key(message_id) {
                1usize
            } else {
                0usize
            },
        ),
{
    let removed = table.rows.remove(&message_id);
    assert(table@.rows =~= old(table)@.delete(message_id).rows);
    match removed {
        Some(_) => Ok(1),
        None => Ok(0),
    }
}

/// Makes the change that a take planned to the row under `message_id`.
fn apply_change(table: &mut MessageTable, message_id: i64, change: RowChange)
    requires
        old(table).wf(),
        change matches RowChange::SetViews(views_left) ==> views_left >= 1,
    ensures
        final(table).wf(),
        final(table)@ == old(table)@.changed(message_id, change),
{
    match change {
        RowChange::Keep => {},
        RowChange::Delete => {
            let _ = delete_message(table, message_id);
        },
        RowChange::SetViews(views_left) => {
            if table.rows.contains_key(&message_id) {
                set_views(table, message_id, views_left);
            }
        },
    }
}

/// Takes one view of the message under `message_id`: hands out its sealed
/// record and counts the view, removing the row with its last view. A
/// missing or spent message gives `NotFound`, and a spent row is removed.
pub fn take_message(table: &mut MessageTable, message_id: i64) -> (taken: Result<
    SealedRecord,
    StoreError,
>)
    requires
        old(table).wf(),
    ensures
        final(table).wf(),
        final(table)@ == old(table)@.after_take(message_id),
        match taken {
            Ok(record) => old(table)@.taken(message_id) == Some(record@),
            Err(e) => e == StoreError::NotFound && old(table)@.taken(message_id) is None,
        },
{
    let found = table.rows.get(&message_id);
    let (change, record) = plan_take(found);
    assert(holds(
        table@,
        message_id,
        match found {
            Some(row) => Some(row@),
            None => None,
        },
    ));
    assert(table@.changed(message_id, change) == table@.after_take(message_id));
    apply_change(table, message_id, change);
    match record {
        Some(record) => Ok(record),
        None => Err(StoreError::NotFound),
    }
}

/// A stored record is what the first take of its identifier hands out, and
/// that identifier was in use for no message before.
pub proof fn lemma_put_then_take(table: TableView, record: SealedRecordView, views_left: i32)
    requires
        table.wf(),
        table.next_id < i64::MAX,
        views_left >= 1,
    ensures
        !table.rows.contains_key(table.next_id as i64),
        table.put(record, views_left).wf(),
        table.put(record, views_left).taken(table.next_id as i64) == Some(record),
        table.put(record, views_left).views(table.next_id as i64) == views_left,
{
}

/// One take spends exactly one view of the message it asks for, leaves the
/// record of a row that stays as it was, and touches no other message.
pub proof fn lemma_take_spends_one_view(table: TableView, id: i64, other: i64)
    requires
        table.wf(),
    ensures
        table.after_take(id).wf(),
        table.after_take(id).next_id == table.next_id,
        table.taken(id) is Some <==> table.views(id) > 0,
        table.after_take(id).views(id) == if table.views(id) > 0 {
            table.views(id) - 1
        } else {
            0
        },
        table.after_take(id).views(id) > 0 ==> table.after_take(id).rows[id].record()
            == table.rows[id].record(),
        other != id ==> table.after_take(id).views(other) == table.views(other),
        other != id ==> table.after_take(id).taken(other) == table.taken(other),
        table.after_take(id).views(other) <= table.views(other),
{
}

/// A message is handed out by as many takes of its identifier as it has
/// views, always with the record it was stored with, and by none after them:
/// the take that follows `count` others is served exactly where `count` is
/// below the views.
pub proof fn lemma_takes_until_spent(table: TableView, id: i64, count: nat)
    requires
        table.wf(),
    ensures
        table.after_takes(id, count).wf(),
        table.after_takes(id, count).taken(id) == if count < table.views(id) {
            Some(table.rows[id].record())
        } else {
            None
        },
    decreases count,
{
    if count > 0 {
        lemma_take_spends_one_view(table, id, id);
        lemma_takes_until_spent(table.after_take(id), id, (count - 1) as nat);
    }
}

/// However the takes of one identifier are mixed with takes of others, as
/// many of them are served as the message had views, or all of them where
/// they are fewer; and the views that are left are those that were not
/// served.
pub proof fn lemma_served_at_most_views(table: TableView, ids: Seq<i64>, id: i64)
    requires
        table.wf(),
    ensures
        table.after_take_each(ids).wf(),
        table.served(ids, id) == if requests(ids, id) < table.views(id) {
            requests(ids, id)
        } else {
            table.views(id)
        },
        table.after_take_each(ids).views(id) == table.views(id) - table.served(ids, id),
    decreases ids.len(),
{
    if ids.len() > 0 {
        lemma_take_spends_one_view(table, ids[0], id);
        lemma_served_at_most_views(table.after_take(ids[0]), ids.drop_first(), id);
    }
}

/// Once as many takes have asked for a message as it had views, no later
/// take of it is served, whatever else is taken in between.
pub proof fn lemma_spent_stays_spent(table: TableView, ids: Seq<i64>, later: Seq<i64>, id: i64)
    requires
        table.wf(),
        requests(ids, id) >= table.views(id),
    ensures
        table.served(ids, id) == table.views(id),
        table.after_take_each(ids).served(later, id) == 0,
{
    lemma_served_at_most_views(table, ids, id);
    lemma_served_at_most_views(table.after_take_each(ids), later, id);
}

/// Whatever the store does, no message gains a view and no identifier comes
/// into use a second time: not by a new message, not by a take, not by a
/// delete, and not by lowering a message's views.
pub proof fn lemma_views_never_rise(
    table: TableView,
    id: i64,
    record: SealedRecordView,
    views_left: i32,
)
    requires
        table.wf(),
    ensures
        table.next_id < i64::MAX ==> table.precedes(table.put(record, views_left)),
        table.precedes(table.after_take(id)),
        table.precedes(table.delete(id)),
        table.may_set_views(id, views_left) ==> table.precedes(table.with_views(id, views_left)),
{
}

/// The rule that no message gains a view and no identifier is used again
/// carries over from single steps to any number of them.
pub proof fn lemma_precedes_chain(first: TableView, second: TableView, third: TableView)
    requires
        first.precedes(second),
        second.precedes(third),
    ensures
        first.precedes(third),
{
    assert forall|id: i64| id < first.next_id implies #[trigger] third.views(id) <= first.views(
        id,
    ) by {
        assert(second.views(id) <= first.views(id));
    }
}

/// Deleting twice is deleting once, and a deleted message is as absent as one
/// that never was stored.
pub proof fn lemma_delete_twice(table: TableView, id: i64)
    requires
        table.wf(),
    ensures
        table.delete(id).wf(),
        table.delete(id).delete(id) == table.delete(id),
        !table.delete(id).rows.contains_key(id),
        table.delete(id).taken(id) is None,
        table.delete(id).after_take(id) == table.delete(id),
        !table.rows.contains_key(id) ==> table.delete(id) == table,
{
    assert(table.delete(id).delete(id).rows =~= table.delete(id).rows);
    if !table.rows.contains_key(id) {
        assert(table.delete(id).rows =~= table.rows);
    }
}

} // verus!
