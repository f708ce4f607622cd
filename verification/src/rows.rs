//! The rows of the index tables beside the item table.

use vstd::prelude::*;

use crate::bytes::copy_bytes;
use crate::hash::SHA512;
use crate::keys::{Signature, UserID};
use crate::model::{ItemRow, ItemRowView};

verus! {

/// An item as the store keeps it.
pub struct StoredItem {
    pub row: ItemRow,
    /// Whether the item is a profile, as read off the record when it was saved.
    pub is_profile: bool,
}

/// What a `StoredItem` holds.
pub struct StoredItemView {
    pub row: ItemRowView,
    pub is_profile: bool,
}

impl View for StoredItem {
    type V = StoredItemView;

    open spec fn view(&self) -> StoredItemView {
        StoredItemView { row: self.row@, is_profile: self.is_profile }
    }
}

/// One user followed by another, from the follower's latest profile.
pub struct FollowRow {
    pub source: UserID,
    /// The followed user's key as the profile spells it.
    pub followed: Vec<u8>,
    /// The name that the follower gives the followed user.
    pub display_name: String,
}

/// What a `FollowRow` holds.
pub struct FollowRowView {
    pub source: Seq<u8>,
    pub followed: Seq<u8>,
    pub display_name: Seq<char>,
}

impl View for FollowRow {
    type V = FollowRowView;

    open spec fn view(&self) -> FollowRowView {
        FollowRowView {
            source: self.source@,
            followed: self.followed@,
            display_name: self.display_name@,
        }
    }
}

impl Clone for FollowRow {
    fn clone(&self) -> (copy: Self)
        ensures
            copy@ == self@,
    {
        FollowRow {
            source: self.source.clone(),
            followed: copy_bytes(self.followed.as_slice()),
            display_name: self.display_name.clone(),
        }
    }
}

/// The latest profile of a user.
pub struct ProfileRow {
    pub user: UserID,
    /// The signature of the profile item.
    pub signature: Signature,
    pub display_name: String,
}

/// What a `ProfileRow` holds.
pub struct ProfileRowView {
    pub user: Seq<u8>,
    pub signature: Seq<u8>,
    pub display_name: Seq<char>,
}

impl View for ProfileRow {
    type V = ProfileRowView;

    open spec fn view(&self) -> ProfileRowView {
        ProfileRowView {
            user: self.user@,
            signature: self.signature@,
            display_name: self.display_name@,
        }
    }
}

/// A comment and the item that it answers.
#[derive(Debug, PartialEq, Eq)]
pub struct ReplyRow {
    pub from_user_id: UserID,
    pub from_signature: Signature,
    pub to_user_id: UserID,
    pub to_signature: Signature,
}

/// What a `ReplyRow` holds.
pub struct ReplyRowView {
    pub from_user_id: Seq<u8>,
    pub from_signature: Seq<u8>,
    pub to_user_id: Seq<u8>,
    pub to_signature: Seq<u8>,
}

impl View for ReplyRow {
    type V = ReplyRowView;

    open spec fn view(&self) -> ReplyRowView {
        ReplyRowView {
            from_user_id: self.from_user_id@,
            from_signature: self.from_signature@,
            to_user_id: self.to_user_id@,
            to_signature: self.to_signature@,
        }
    }
}

/// A file that an item declares.
#[derive(Debug, PartialEq, Eq)]
pub struct AttachmentRow {
    pub user_id: UserID,
    pub signature: Signature,
    pub name: String,
    /// The size of the contents in bytes.
    pub size: i64,
    pub hash: SHA512,
}

/// What an `AttachmentRow` holds.
pub struct AttachmentRowView {
    pub user_id: Seq<u8>,
    pub signature: Seq<u8>,
    pub name: Seq<char>,
    pub size: i64,
    pub hash: Seq<u8>,
}

impl View for AttachmentRow {
    type V = AttachmentRowView;

    open spec fn view(&self) -> AttachmentRowView {
        AttachmentRowView {
            user_id: self.user_id@,
            signature: self.signature@,
            name: self.name@,
            size: self.size,
            hash: self.hash@,
        }
    }
}

impl Clone for AttachmentRow {
    fn clone(&self) -> (copy: Self)
        ensures
            copy@ == self@,
    {
        AttachmentRow {
            user_id: self.user_id.clone(),
            signature: self.signature.clone(),
            name: self.name.clone(),
            size: self.size,
            hash: self.hash.clone(),
        }
    }
}

/// Contents in the store, under the key by which they are found.
pub struct Blob {
    /// The SHA-512 hash of the contents, or the key of an upload under way.
    pub key: Vec<u8>,
    pub contents: Vec<u8>,
}

/// What a `Blob` holds.
pub struct BlobView {
    pub key: Seq<u8>,
    pub contents: Seq<u8>,
}

impl View for Blob {
    type V = BlobView;

    open spec fn view(&self) -> BlobView {
        BlobView { key: self.key@, contents: self.contents@ }
    }
}

} // verus!
