//! The records that the server keeps and hands out.

use vstd::prelude::*;

use crate::bytes::copy_bytes;
use crate::hash::SHA512;
use crate::keys::{Signature, UserID};
use crate::time::Timestamp;

verus! {

/// The text of an optional string.
pub open spec fn opt_text(name: Option<String>) -> Option<Seq<char>> {
    match name {
        Some(s) => Some(s@),
        None => None,
    }
}

/// One stored item: who signed it, when, and the signed bytes.
#[derive(Debug, PartialEq, Eq)]
pub struct ItemRow {
    pub user: UserID,
    pub signature: Signature,
    /// The timestamp signed inside the item.
    pub timestamp: Timestamp,
    /// When this server received the item.
    pub received: Timestamp,
    pub item_bytes: Vec<u8>,
}

/// What an `ItemRow` holds.
pub struct ItemRowView {
    pub user: Seq<u8>,
    pub signature: Seq<u8>,
    pub timestamp: i64,
    pub received: i64,
    pub item_bytes: Seq<u8>,
}

impl View for ItemRow {
    type V = ItemRowView;

    open spec fn view(&self) -> ItemRowView {
        ItemRowView {
            user: self.user@,
            signature: self.signature@,
            timestamp: self.timestamp.unix_utc_ms,
            received: self.received.unix_utc_ms,
            item_bytes: self.item_bytes@,
        }
    }
}

impl Clone for ItemRow {
    fn clone(&self) -> (copy: Self)
        ensures
            copy@ == self@,
    {
        ItemRow {
            user: self.user.clone(),
            signature: self.signature.clone(),
            timestamp: self.timestamp,
            received: self.received,
            item_bytes: copy_bytes(self.item_bytes.as_slice()),
        }
    }
}

/// An item together with the name under which its author is shown.
#[derive(Debug, PartialEq, Eq)]
pub struct ItemDisplayRow {
    pub item: ItemRow,
    pub display_name: Option<String>,
}

/// What an `ItemDisplayRow` holds.
pub struct ItemDisplayRowView {
    pub item: ItemRowView,
    pub display_name: Option<Seq<char>>,
}

impl View for ItemDisplayRow {
    type V = ItemDisplayRowView;

    open spec fn view(&self) -> ItemDisplayRowView {
        ItemDisplayRowView { item: self.item@, display_name: opt_text(self.display_name) }
    }
}

/// A user whom the server's administrator trusts directly.
#[derive(Debug, PartialEq, Eq)]
pub struct ServerUser {
    pub user: UserID,
    /// A note of the administrator's; never shown to readers.
    pub notes: String,
    /// Whether this user's items appear on the home page.
    pub on_homepage: bool,
}

/// What a `ServerUser` holds.
pub struct ServerUserView {
    pub user: Seq<u8>,
    pub notes: Seq<char>,
    pub on_homepage: bool,
}

impl View for ServerUser {
    type V = ServerUserView;

    open spec fn view(&self) -> ServerUserView {
        ServerUserView { user: self.user@, notes: self.notes@, on_homepage: self.on_homepage }
    }
}

impl Clone for ServerUser {
    fn clone(&self) -> (copy: Self)
        ensures
            copy@ == self@,
    {
        ServerUser {
            user: self.user.clone(),
            notes: self.notes.clone(),
            on_homepage: self.on_homepage,
        }
    }
}

/// One user followed in a profile, as the profile spells it.
#[derive(Clone, Debug, PartialEq, Eq)]
pub struct Follow {
    /// The followed user's key, unchecked.
    pub user: Vec<u8>,
    /// The name that the follower gives this user.
    pub display_name: String,
}

/// What a `Follow` holds.
pub struct FollowView {
    pub user: Seq<u8>,
    pub display_name: Seq<char>,
}

impl View for Follow {
    type V = FollowView;

    open spec fn view(&self) -> FollowView {
        FollowView { user: self.user@, display_name: self.display_name@ }
    }
}

/// One file declared in a post, as the post spells it.
#[derive(Clone, Debug, PartialEq, Eq)]
pub struct File {
    pub name: String,
    /// The SHA-512 hash of the contents, unchecked.
    pub hash: Vec<u8>,
    /// The size of the contents in bytes.
    pub size: u64,
}

/// What a `File` holds.
pub struct FileView {
    pub name: Seq<char>,
    pub hash: Seq<u8>,
    pub size: u64,
}

impl View for File {
    type V = FileView;

    open spec fn view(&self) -> FileView {
        FileView { name: self.name@, hash: self.hash@, size: self.size }
    }
}

/// The item that a comment answers, as the comment spells it.
#[derive(Clone, Debug, PartialEq, Eq)]
pub struct ReplyRef {
    pub user_id: Vec<u8>,
    pub signature: Vec<u8>,
}

/// What a `ReplyRef` holds.
pub struct ReplyRefView {
    pub user_id: Seq<u8>,
    pub signature: Seq<u8>,
}

impl View for ReplyRef {
    type V = ReplyRefView;

    open spec fn view(&self) -> ReplyRefView {
        ReplyRefView { user_id: self.user_id@, signature: self.signature@ }
    }
}

/// What kind of record an item is, with the fields that the server indexes.
#[derive(Clone, Debug, PartialEq, Eq)]
pub enum ItemType {
    Post { attachments: Vec<File> },
    Comment { reply_to: ReplyRef },
    Profile { display_name: String, follows: Vec<Follow> },
}

/// What an `ItemType` holds.
pub enum ItemTypeView {
    Post { attachments: Seq<FileView> },
    Comment { reply_to: ReplyRefView },
    Profile { display_name: Seq<char>, follows: Seq<FollowView> },
}

impl View for ItemType {
    type V = ItemTypeView;

    open spec fn view(&self) -> ItemTypeView {
        match *self {
            ItemType::Post { attachments } => ItemTypeView::Post {
                attachments: attachments@.map_values(|f: File| f@),
            },
            ItemType::Comment { reply_to } => ItemTypeView::Comment { reply_to: reply_to@ },
            ItemType::Profile { display_name, follows } => ItemTypeView::Profile {
                display_name: display_name@,
                follows: follows@.map_values(|f: Follow| f@),
            },
        }
    }
}

/// A parsed item: the signed timestamp and the fields of its kind.
#[derive(Clone, Debug, PartialEq, Eq)]
pub struct Item {
    pub timestamp_ms_utc: i64,
    pub item_type: ItemType,
}

/// What an `Item` holds.
pub struct ItemView {
    pub timestamp_ms_utc: i64,
    pub item_type: ItemTypeView,
}

impl View for Item {
    type V = ItemView;

    open spec fn view(&self) -> ItemView {
        ItemView { timestamp_ms_utc: self.timestamp_ms_utc, item_type: self.item_type@ }
    }
}

/// What a record holds, if the bytes were one.
pub open spec fn opt_item(parsed: Option<Item>) -> Option<ItemView> {
    match parsed {
        Some(item) => Some(item@),
        None => None,
    }
}

impl ItemView {
    /// The files that the item declares: those of a post, none otherwise.
    pub open spec fn attachments(self) -> Seq<FileView> {
        match self.item_type {
            ItemTypeView::Post { attachments } => attachments,
            _ => Seq::empty(),
        }
    }

    /// The name that a profile gives its author; empty for another kind of item.
    pub open spec fn display_name(self) -> Seq<char> {
        match self.item_type {
            ItemTypeView::Profile { display_name, .. } => display_name,
            _ => Seq::empty(),
        }
    }

    /// The users that the item follows: those of a profile, none otherwise.
    pub open spec fn follows(self) -> Seq<FollowView> {
        match self.item_type {
            ItemTypeView::Profile { follows, .. } => follows,
            _ => Seq::empty(),
        }
    }
}

impl Item {
    /// Whether the item is a profile.
    pub fn has_profile(&self) -> (b: bool)
        ensures
            b == (self@.item_type is Profile),
    {
        match &self.item_type {
            ItemType::Profile { .. } => true,
            _ => false,
        }
    }

    /// Whether the item is a comment.
    pub fn has_comment(&self) -> (b: bool)
        ensures
            b == (self@.item_type is Comment),
    {
        match &self.item_type {
            ItemType::Comment { .. } => true,
            _ => false,
        }
    }

    /// Whether the item is a post.
    pub fn has_post(&self) -> (b: bool)
        ensures
            b == (self@.item_type is Post),
    {
        match &self.item_type {
            ItemType::Post { .. } => true,
            _ => false,
        }
    }
}

/// Why an item was refused for want of quota.
#[derive(Clone, Copy, Debug, PartialEq, Eq, Structural)]
pub enum QuotaDenyReason {
    /// The author is neither a server user nor followed by one.
    UnknownUser,
}

/// What the server knows of an attachment.
#[derive(Debug, PartialEq, Eq)]
pub struct FileMeta {
    /// Whether the contents have been uploaded.
    pub exists: bool,
    pub hash: SHA512,
    pub size: u64,
    pub quota_exceeded: bool,
}

/// How much of the store one author takes up.
#[derive(Debug, PartialEq, Eq)]
pub struct UsageRow {
    pub user_id: UserID,
    /// The name from the author's latest profile.
    pub display_name: Option<String>,
    /// The bytes of the author's items.
    pub items_bytes: u64,
    /// The declared sizes of the files of the author's items, each file
    /// counted once for each item that declares it.
    pub attachments_bytes: u64,
    /// The two together.
    pub total_bytes: u64,
}

/// What a `UsageRow` holds.
pub struct UsageRowView {
    pub user_id: Seq<u8>,
    pub display_name: Option<Seq<char>>,
    pub items_bytes: u64,
    pub attachments_bytes: u64,
    pub total_bytes: u64,
}

impl View for UsageRow {
    type V = UsageRowView;

    open spec fn view(&self) -> UsageRowView {
        UsageRowView {
            user_id: self.user_id@,
            display_name: opt_text(self.display_name),
            items_bytes: self.items_bytes,
            attachments_bytes: self.attachments_bytes,
            total_bytes: self.total_bytes,
        }
    }
}

/// What a pruning run should do.
#[derive(Clone, Copy, Debug, PartialEq, Eq, Structural)]
pub struct PruneOpts {
    /// Count what would go, and delete nothing.
    pub dry_run: bool,
    /// Delete contents that no item declares.
    pub attachments: bool,
    /// Delete items whose author is not known.
    pub items: bool,
}

/// What a pruning run deleted, or would have.
#[derive(Clone, Copy, Debug, PartialEq, Eq, Structural)]
pub struct PruneReport {
    pub items_deleted: u64,
    pub attachments_deleted: u64,
    pub bytes_reclaimed: u64,
}

} // verus!
