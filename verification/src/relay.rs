//! The relay itself: a message goes in as plaintext and comes out as
//! plaintext, sealed while it is stored and gone once its views are spent.

use crate::cipher::{gcm_opened, parts_spec, seal_spec, unseal_spec};
use crate::cipher::{Cipher, SealedRecord, SealedRecordView};
use crate::cipher::{MAX_PLAINTEXT_LEN, NONCE_LEN, TAG_LEN};
use crate::storage::{lemma_put_then_take, lemma_takes_until_spent};
use crate::storage::{store_message, take_message};
use crate::storage::{MessageTable, NewMessage, StoreError, TableView};
use vstd::prelude::*;

verus! {

/// The views that a message gets where its sender names none.
pub const DEFAULT_VIEWS: i32 = 1;

/// Why the relay did not do what was asked.
#[derive(Clone, Copy, Debug, PartialEq, Eq, Structural)]
pub enum RelayError {
    /// No message is stored under the identifier, or none that may still be
    /// viewed.
    NotFound,
    /// The stored record did not unseal under the relay's key.
    Integrity,
    /// The store could not keep the message.
    Storage,
    /// The message could not be sealed.
    EncryptionFailure,
    /// The sender asked for fewer views than one.
    InvalidQuota,
}

/// The status that tells a caller that there is no such message.
pub const STATUS_NOT_FOUND: u16 = 404;

/// The status that tells a caller that the request cannot be met as it is.
pub const STATUS_BAD_REQUEST: u16 = 400;

/// The status that tells a caller that the server failed.
pub const STATUS_SERVER_ERROR: u16 = 500;

impl RelayError {
    /// Whether the error is shown to a caller as a missing message. A record
    /// that fails to unseal is shown so too: a caller must not learn from the
    /// answer whether a ciphertext was valid.
    pub open spec fn shown_as_missing_spec(self) -> bool {
        self == RelayError::NotFound || self == RelayError::Integrity
    }

    /// Whether the error is shown to a caller as a missing message rather
    /// than as a failure of the server.
    pub fn shown_as_missing(&self) -> (missing: bool)
        ensures
            missing == self.shown_as_missing_spec(),
    {
        match self {
            RelayError::NotFound => true,
            RelayError::Integrity => true,
            _ => false,
        }
    }

    /// The HTTP status under which the error is reported: a missing message
    /// and one that does not unseal look the same, a refused quota is the
    /// sender's mistake, and everything else a failure of the server that
    /// says nothing of its cause.
    pub open spec fn status_spec(self) -> u16 {
        if self.shown_as_missing_spec() {
            STATUS_NOT_FOUND
        } else if self == RelayError::InvalidQuota {
            STATUS_BAD_REQUEST
        } else {
            STATUS_SERVER_ERROR
        }
    }

    /// The HTTP status under which the error is reported.
    pub fn status(&self) -> (status: u16)
        ensures
            status == self.status_spec(),
    {
        match self {
            RelayError::NotFound => STATUS_NOT_FOUND,
            RelayError::Integrity => STATUS_NOT_FOUND,
            RelayError::InvalidQuota => STATUS_BAD_REQUEST,
            _ => STATUS_SERVER_ERROR,
        }
    }
}

/// The views that a new message gets: those asked for, or the default.
pub open spec fn quota_spec(views_left: Option<i32>) -> i32 {
    match views_left {
        Some(views) => views,
        None => DEFAULT_VIEWS,
    }
}

/// What a reader gets who asks for the message under `id`: the plaintext of
/// the record that this take hands out.
pub open spec fn get_spec(table: TableView, key: Seq<u8>, id: i64) -> Result<Seq<u8>, RelayError> {
    match table.taken(id) {
        Some(record) => match unseal_spec(key, record) {
            Ok(plaintext) => Ok(plaintext),
            Err(_) => Err(RelayError::Integrity),
        },
        None => Err(RelayError::NotFound),
    }
}

/// Whatever record is stored with at least one view, the first reader of
/// its identifier gets exactly what that record unseals to: its plaintext
/// where the record unseals under the reader's key, an integrity error where
/// it does not.
pub proof fn lemma_first_take_unseals_what_was_put(
    table: TableView,
    key: Seq<u8>,
    record: SealedRecordView,
    views_left: i32,
)
    requires
        table.wf(),
        table.next_id < i64::MAX,
        views_left >= 1,
    ensures
        get_spec(table.put(record, views_left), key, table.next_id as i64) == match unseal_spec(
            key,
            record,
        ) {
            Ok(plaintext) => Ok::<Seq<u8>, RelayError>(plaintext),
            Err(_) => Err::<Seq<u8>, RelayError>(RelayError::Integrity),
        },
{
    lemma_put_then_take(table, record, views_left);
}

/// A read gives bytes only where the cipher opened the record that the take
/// handed out, and then the bytes that it opened. A record that the cipher
/// refuses under the reader's key, for its tag, its nonce or its key, and one
/// whose text is malformed, read as an integrity error; that error and a
/// missing message are both reported as a missing message.
pub proof fn lemma_refused_record_reads_as_missing(table: TableView, key: Seq<u8>, id: i64)
    ensures
        get_spec(table, key, id) == match table.taken(id) {
            Some(record) => match parts_spec(record) {
                Some((nonce, sealed)) => match gcm_opened(key, nonce, sealed) {
                    Some(plaintext) => Ok::<Seq<u8>, RelayError>(plaintext),
                    None => Err::<Seq<u8>, RelayError>(RelayError::Integrity),
                },
                None => Err::<Seq<u8>, RelayError>(RelayError::Integrity),
            },
            None => Err::<Seq<u8>, RelayError>(RelayError::NotFound),
        },
        get_spec(table, key, id) matches Err(e) ==> e.status_spec() == STATUS_NOT_FOUND,
{
}

/// A reader is served exactly when the message still has a view, and every
/// reader who is served gets what the stored record unseals to.
pub proof fn lemma_served_while_views_last(table: TableView, key: Seq<u8>, id: i64, count: nat)
    requires
        table.wf(),
    ensures
        get_spec(table.after_takes(id, count), key, id) == if count < table.views(id) {
            get_spec(table, key, id)
        } else {
            Err::<Seq<u8>, RelayError>(RelayError::NotFound)
        },
{
    lemma_takes_until_spent(table, id, count);
    lemma_takes_until_spent(table, id, 0);
}

/// The views that a new message gets: those asked for, or the default; a
/// quota below one is refused.
pub fn quota(views_left: Option<i32>) -> (quota: Result<i32, RelayError>)
    ensures
        quota == if quota_spec(views_left) >= 1 {
            Ok::<i32, RelayError>(quota_spec(views_left))
        } else {
            Err::<i32, RelayError>(RelayError::InvalidQuota)
        },
{
    let views: i32 = match views_left {
        Some(views) => views,
        None => DEFAULT_VIEWS,
    };
    if views >= 1 {
        Ok(views)
    } else {
        Err(RelayError::InvalidQuota)
    }
}

/// Stores a sealed record with the views asked for and returns the
/// identifier it got.
pub fn store_sealed(table: &mut MessageTable, record: &SealedRecord, views_left: Option<i32>) -> (id:
    Result<i64, RelayError>)
    requires
        old(table).wf(),
    ensures
        final(table).wf(),
        match id {
            Ok(id) => {
                &&& quota_spec(views_left) >= 1
                &&& id == old(table)@.next_id
                &&& final(table)@ == old(table)@.put(record@, quota_spec(views_left))
                &&& final(table)@.taken(id) == Some(record@)
            },
            Err(e) => {
                &&& final(table)@ == old(table)@
                &&& e == if quota_spec(views_left) < 1 {
                    RelayError::InvalidQuota
                } else {
                    RelayError::Storage
                }
                &&& quota_spec(views_left) < 1 || old(table)@.next_id == i64::MAX
            },
        },
{
    let views: i32 = match quota(views_left) {
        Ok(views) => views,
        Err(e) => {
            return Err(e);
        },
    };
    let new_msg = NewMessage {
        nonce: record.nonce.as_str(),
        ciphertext: record.ciphertext.as_str(),
        views_left: views,
    };
    match store_message(table, &new_msg) {
        Ok(message) => Ok(message.id),
        Err(StoreError::InvalidQuota) => Err(RelayError::InvalidQuota),
        Err(_) => Err(RelayError::Storage),
    }
}

/// Takes a message in: seals `content` and stores it with the views asked
/// for, one by default. The identifier returned is the only way to the
/// message, and the first reader to ask for it gets `content` back.
///
/// A quota below one is refused before anything is sealed. Sealing fails
/// where the content is too long or the random source gives out; the table is
/// then left as it was.
pub fn create_message(
    table: &mut MessageTable,
    cipher: &Cipher,
    content: &[u8],
    views_left: Option<i32>,
) -> (id: Result<i64, RelayError>)
    requires
        old(table).wf(),
    ensures
        final(table).wf(),
        match id {
            Ok(id) => {
                &&& quota_spec(views_left) >= 1
                &&& content@.len() <= MAX_PLAINTEXT_LEN
                &&& id == old(table)@.next_id
                &&& exists|nonce: Seq<u8>|
                    nonce.len() == NONCE_LEN && final(table)@ == old(table)@.put(
                        #[trigger] seal_spec(cipher.key(), nonce, content@),
                        quota_spec(views_left),
                    )
                &&& final(table)@.views(id) == quota_spec(views_left)
                &&& final(table)@.rows.contains_key(id)
                &&& final(table)@.rows[id].nonce.len() == 2 * NONCE_LEN
                &&& final(table)@.rows[id].ciphertext.len() == 2 * (content@.len() + TAG_LEN)
                &&& get_spec(final(table)@, cipher.key(), id) == Ok::<Seq<u8>, RelayError>(
                    content@,
                )
            },
            Err(e) => {
                &&& final(table)@ == old(table)@
                &&& e == RelayError::InvalidQuota <==> quota_spec(views_left) < 1
                &&& e == RelayError::Storage ==> old(table)@.next_id == i64::MAX && content@.len()
                    <= MAX_PLAINTEXT_LEN
                &&& e == RelayError::InvalidQuota || e == RelayError::Storage || e
                    == RelayError::EncryptionFailure
            },
        },
        quota_spec(views_left) >= 1 && content@.len() > MAX_PLAINTEXT_LEN ==> id == Err::<
            i64,
            RelayError,
        >(RelayError::EncryptionFailure),
{
    if let Err(e) = quota(views_left) {
        return Err(e);
    }
    match cipher.seal(content) {
        Ok(record) => {
            let id = store_sealed(table, &record, views_left);
            proof {
                if id is Ok {
                    assert(table@ == old(table)@.put(record@, quota_spec(views_left)));
                    lemma_first_take_unseals_what_was_put(
                        old(table)@,
                        cipher.key(),
                        record@,
                        quota_spec(views_left),
                    );
                }
            }
            id
        },
        Err(_) => Err(RelayError::EncryptionFailure),
    }
}

/// Hands a message out: takes one view of the message under `id` and unseals
/// the record that this take read. A missing or spent message gives
/// `NotFound`. The view is spent even where the record then fails to unseal.
pub fn get_message(table: &mut MessageTable, cipher: &Cipher, id: i64) -> (content: Result<
    Vec<u8>,
    RelayError,
>)
    requires
        old(table).wf(),
    ensures
        final(table).wf(),
        final(table)@ == old(table)@.after_take(id),
        match content {
            Ok(bytes) => get_spec(old(table)@, cipher.key(), id) == Ok::<Seq<u8>, RelayError>(
                bytes@,
            ),
            Err(e) => get_spec(old(table)@, cipher.key(), id) == Err::<Seq<u8>, RelayError>(e),
        },
{
    match take_message(table, id) {
        Ok(record) => match cipher.unseal(&record) {
            Ok(bytes) => Ok(bytes),
            Err(_) => Err(RelayError::Integrity),
        },
        Err(_) => Err(RelayError::NotFound),
    }
}

} // verus!
