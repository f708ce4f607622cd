//! What an item asks of the index: the rows that saving it adds, and the
//! faults for which it is turned down.

use vstd::prelude::*;

use crate::error::{Failure, InvalidInput};
use crate::hash::{HASH_BYTES, SHA512};
use crate::keys::{ed25519_accepts, Signature, SIGNATURE_BYTES, USER_ID_BYTES, UserID};
use crate::model::{
    File, FileView, Item, ItemRow, ItemRowView, ItemType, ItemTypeView, ItemView, opt_item,
    QuotaDenyReason,
};
use crate::rows::{AttachmentRow, AttachmentRowView, ReplyRow, ReplyRowView};
use crate::tables::views;
use crate::text::{has_separator, name_has_separator};
use crate::time::Timestamp;

verus! {

/// The largest item that the server takes, in bytes.
pub const MAX_ITEM_SIZE: usize = 32768;

/// Whether an item of `len` bytes is small enough to be taken.
pub open spec fn item_size_ok(len: nat) -> bool {
    len <= MAX_ITEM_SIZE
}

/// Turns an item down with `ItemTooLarge` if it has more than `MAX_ITEM_SIZE` bytes.
pub fn check_item_size(bytes: &[u8]) -> (r: Result<(), InvalidInput>)
    ensures
        item_size_ok(bytes@.len()) ==> r is Ok,
        !item_size_ok(bytes@.len()) ==> r == Err::<(), InvalidInput>(InvalidInput::ItemTooLarge),
{
    if bytes.len() > MAX_ITEM_SIZE {
        Err(InvalidInput::ItemTooLarge)
    } else {
        Ok(())
    }
}

/// Whether an item signed at `timestamp` is close enough to the server's
/// time `now`: within `max_drift_ms` of it either way, or however far where
/// the server sets no bound.
pub open spec fn within_drift(max_drift_ms: Option<u64>, now: i64, timestamp: i64) -> bool {
    match max_drift_ms {
        Some(drift) => now - drift <= timestamp <= now + drift,
        None => true,
    }
}

/// Turns an item down with `Timestamp` if the time signed inside it is
/// further than `max_drift_ms` from the server's time. A server that sets
/// no bound takes every item.
pub fn check_timestamp(max_drift_ms: Option<u64>, now: i64, timestamp: i64) -> (r: Result<
    (),
    InvalidInput,
>)
    ensures
        within_drift(max_drift_ms, now, timestamp) ==> r is Ok,
        !within_drift(max_drift_ms, now, timestamp) ==> r == Err::<(), InvalidInput>(
            InvalidInput::Timestamp,
        ),
{
    match max_drift_ms {
        None => Ok(()),
        Some(drift) => {
            let apart: i128 = now as i128 - timestamp as i128;
            let bound: i128 = drift as i128;
            if -bound <= apart && apart <= bound {
                Ok(())
            } else {
                Err(InvalidInput::Timestamp)
            }
        },
    }
}

/// What is wrong with an item as it arrives, before the store is asked: it
/// is too large, its signature does not verify, its bytes are no record, or
/// it was signed too far from the time at which it came.
pub open spec fn arrival_fault(
    user: Seq<u8>,
    signature: Seq<u8>,
    bytes: Seq<u8>,
    parsed: Option<ItemView>,
    received: i64,
    max_drift_ms: Option<u64>,
) -> Option<Failure> {
    if !item_size_ok(bytes.len()) {
        Some(Failure::InvalidInput(InvalidInput::ItemTooLarge))
    } else if !ed25519_accepts(user, bytes, signature) {
        Some(Failure::SignatureInvalid)
    } else {
        match parsed {
            None => Some(Failure::InvalidInput(InvalidInput::Unparseable)),
            Some(item) => if !within_drift(max_drift_ms, received, item.timestamp_ms_utc) {
                Some(Failure::InvalidInput(InvalidInput::Timestamp))
            } else {
                None
            },
        }
    }
}

/// Looks at an item as it arrives, before the store is asked: its size,
/// its signature, whether its bytes were a record, and, where the server
/// bounds the drift of clocks, the time signed inside it.
pub fn check_item(
    user: &UserID,
    signature: &Signature,
    bytes: &[u8],
    parsed: &Option<Item>,
    received: Timestamp,
    max_drift_ms: Option<u64>,
) -> (r: Result<(), Failure>)
    ensures
        match arrival_fault(
            user@,
            signature@,
            bytes@,
            opt_item(*parsed),
            received.unix_utc_ms,
            max_drift_ms,
        ) {
            Some(fault) => r == Err::<(), Failure>(fault),
            None => r is Ok,
        },
{
    match check_item_size(bytes) {
        Err(fault) => {
            return Err(Failure::InvalidInput(fault));
        },
        Ok(_) => {},
    }
    if !user.verify(bytes, signature) {
        return Err(Failure::SignatureInvalid);
    }
    let item = match parsed {
        Some(item) => item,
        None => {
            return Err(Failure::InvalidInput(InvalidInput::Unparseable));
        },
    };
    match check_timestamp(max_drift_ms, received.unix_utc_ms, item.timestamp_ms_utc) {
        Err(fault) => Err(Failure::InvalidInput(fault)),
        Ok(_) => Ok(()),
    }
}

/// Whether a profile signed at `timestamp` takes the place of the indexed
/// one, which was signed at `previous`: where none is indexed, or an older one.
pub open spec fn newer_than(previous: Option<i64>, timestamp: i64) -> bool {
    match previous {
        Some(p) => p < timestamp,
        None => true,
    }
}

/// Whether a profile signed at `timestamp` takes the place of the one that
/// is indexed for its author, which was signed at `previous`. A newer
/// profile is never replaced, nor one of the same time.
pub fn profile_supersedes(previous: Option<i64>, timestamp: i64) -> (newer: bool)
    ensures
        newer == newer_than(previous, timestamp),
{
    match previous {
        Some(p) => p < timestamp,
        None => true,
    }
}

/// Whether a user may store an item, given whether the user is a server
/// user and whether a server user follows them: one of the two is enough.
pub fn quota_check(is_server_user: bool, followed_by_server_user: bool) -> (denied: Option<
    QuotaDenyReason,
>)
    ensures
        denied == if is_server_user || followed_by_server_user {
            None::<QuotaDenyReason>
        } else {
            Some(QuotaDenyReason::UnknownUser)
        },
{
    if is_server_user {
        return None;
    }
    if followed_by_server_user {
        return None;
    }
    Some(QuotaDenyReason::UnknownUser)
}

/// What is wrong with a declared file, if anything: first its hash, then
/// its name, then its size.
pub open spec fn file_fault(file: FileView) -> Option<InvalidInput> {
    if file.hash.len() != HASH_BYTES {
        Some(InvalidInput::Hash)
    } else if has_separator(file.name) {
        Some(InvalidInput::FileName)
    } else if file.size > i64::MAX {
        Some(InvalidInput::FileSize)
    } else {
        None
    }
}

/// The fault of the first faulty file.
pub open spec fn files_fault(files: Seq<FileView>) -> Option<InvalidInput>
    decreases files.len(),
{
    if files.len() == 0 {
        None
    } else {
        match files_fault(files.drop_last()) {
            Some(fault) => Some(fault),
            None => file_fault(files.last()),
        }
    }
}

/// The attachment row for a file that an item declares.
pub open spec fn attachment_row_of(row: ItemRowView) -> spec_fn(FileView) -> AttachmentRowView {
    |file: FileView|
        AttachmentRowView {
            user_id: row.user,
            signature: row.signature,
            name: file.name,
            size: file.size as i64,
            hash: file.hash,
        }
}

/// The attachment rows that an item asks for, or the fault of its first
/// faulty file.
pub open spec fn attachment_rows(row: ItemRowView, item: ItemView) -> Result<
    Seq<AttachmentRowView>,
    InvalidInput,
> {
    match files_fault(item.attachments()) {
        Some(fault) => Err(fault),
        None => Ok(item.attachments().map_values(attachment_row_of(row))),
    }
}

/// The reply row that an item asks for: one for a comment whose target is
/// spelt with a key of 32 bytes and a signature of 64, none for another kind
/// of item, and a fault for a comment with a malformed target.
pub open spec fn reply_row(row: ItemRowView, item: ItemView) -> Result<
    Option<ReplyRowView>,
    InvalidInput,
> {
    match item.item_type {
        ItemTypeView::Comment { reply_to } => if reply_to.user_id.len() != USER_ID_BYTES {
            Err(InvalidInput::UserID)
        } else if reply_to.signature.len() != SIGNATURE_BYTES {
            Err(InvalidInput::Signature)
        } else {
            Ok(
                Some(
                    ReplyRowView {
                        from_user_id: row.user,
                        from_signature: row.signature,
                        to_user_id: reply_to.user_id,
                        to_signature: reply_to.signature,
                    },
                ),
            )
        },
        _ => Ok(None),
    }
}

/// The files that an item declares: those of a post, none otherwise.
fn declared_files(item: &Item) -> (files: &[File])
    ensures
        views(files@) == item@.attachments(),
{
    match &item.item_type {
        ItemType::Post { attachments } => {
            assert(views(attachments@) =~= item@.attachments());
            attachments.as_slice()
        },
        _ => {
            let none: &[File] = &[];
            assert(views(none@) =~= item@.attachments());
            none
        },
    }
}

/// The attachment rows for the files that `item` declares, in their order.
/// A file with a hash of the wrong length, with `/` or `\` in its name, or of
/// a size beyond `i64::MAX` faults the whole item.
pub fn get_attachment_rows(row: &ItemRow, item: &Item) -> (r: Result<
    Vec<AttachmentRow>,
    InvalidInput,
>)
    ensures
        match r {
            Ok(rows) => attachment_rows(row@, item@) == Ok::<
                Seq<AttachmentRowView>,
                InvalidInput,
            >(views(rows@)),
            Err(fault) => attachment_rows(row@, item@) == Err::<
                Seq<AttachmentRowView>,
                InvalidInput,
            >(fault),
        },
{
    let files = declared_files(item);
    let mut rows: Vec<AttachmentRow> = Vec::new();
    let mut i: usize = 0;
    let ghost all = item@.attachments();
    proof {
        assert(all.subrange(0, 0) =~= Seq::<FileView>::empty());
        assert(views(rows@) =~= all.subrange(0, 0).map_values(attachment_row_of(row@)));
    }
    while i < files.len()
        invariant
            i <= files@.len(),
            all == views(files@),
            all == item@.attachments(),
            files_fault(all.subrange(0, i as int)) is None,
            views(rows@) == all.subrange(0, i as int).map_values(attachment_row_of(row@)),
        decreases files.len() - i,
    {
        let file = &files[i];
        proof {
            assert(all[i as int] == file@);
            assert(all.subrange(0, i + 1).drop_last() =~= all.subrange(0, i as int));
            assert(all.subrange(0, i + 1).last() == file@);
        }
        let hash = match SHA512::from_hash_bytes(file.hash.as_slice()) {
            Ok(hash) => hash,
            Err(_) => {
                proof {
                    lemma_fault_stays(all, i + 1);
                }
                return Err(InvalidInput::Hash);
            },
        };
        if name_has_separator(file.name.as_str()) {
            proof {
                lemma_fault_stays(all, i + 1);
            }
            return Err(InvalidInput::FileName);
        }
        if file.size > i64::MAX as u64 {
            proof {
                lemma_fault_stays(all, i + 1);
            }
            return Err(InvalidInput::FileSize);
        }
        let ghost so_far = views(rows@);
        let made = AttachmentRow {
            name: file.name.clone(),
            hash,
            user_id: row.user.clone(),
            signature: row.signature.clone(),
            size: file.size as i64,
        };
        assert(made@ == attachment_row_of(row@)(file@));
        rows.push(made);
        assert(views(rows@) =~= so_far.push(made@));
        assert(views(rows@) =~= all.subrange(0, i + 1).map_values(attachment_row_of(row@)));
        i += 1;
    }
    assert(all.subrange(0, i as int) =~= all);
    Ok(rows)
}

/// A fault among the first `n` files is the fault of them all.
proof fn lemma_fault_stays(files: Seq<FileView>, n: int)
    requires
        0 <= n <= files.len(),
        files_fault(files.subrange(0, n)) is Some,
    ensures
        files_fault(files) == files_fault(files.subrange(0, n)),
    decreases files.len() - n,
{
    if n < files.len() {
        assert(files.subrange(0, n + 1).drop_last() =~= files.subrange(0, n));
        lemma_fault_stays(files, n + 1);
    } else {
        assert(files.subrange(0, n) =~= files);
    }
}

/// The reply row for `item`, if it is a comment. A comment whose target is
/// not spelt with a key of 32 bytes and a signature of 64 faults the item.
pub fn get_reply_row(row: &ItemRow, item: &Item) -> (r: Result<Option<ReplyRow>, InvalidInput>)
    ensures
        match r {
            Ok(Some(reply)) => reply_row(row@, item@) == Ok::<Option<ReplyRowView>, InvalidInput>(
                Some(reply@),
            ),
            Ok(None) => reply_row(row@, item@) == Ok::<Option<ReplyRowView>, InvalidInput>(None),
            Err(fault) => reply_row(row@, item@) == Err::<Option<ReplyRowView>, InvalidInput>(
                fault,
            ),
        },
{
    match &item.item_type {
        ItemType::Comment { reply_to } => {
            let to_user_id = match UserID::from_bytes(reply_to.user_id.as_slice()) {
                Ok(user) => user,
                Err(_) => {
                    return Err(InvalidInput::UserID);
                },
            };
            let to_signature = match Signature::from_bytes(reply_to.signature.as_slice()) {
                Ok(signature) => signature,
                Err(_) => {
                    return Err(InvalidInput::Signature);
                },
            };
            Ok(
                Some(
                    ReplyRow {
                        from_user_id: row.user.clone(),
                        from_signature: row.signature.clone(),
                        to_user_id,
                        to_signature,
                    },
                ),
            )
        },
        _ => Ok(None),
    }
}

} // verus!
