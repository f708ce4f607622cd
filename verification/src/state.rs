//! What the store holds, as mathematics: seven tables, the rules that bind
//! them, and what each question put to the store answers.

use vstd::prelude::*;

use crate::bytes::bytes_less;
use crate::error::{Failure, InvalidInput};
use crate::hash::{HASH_BYTES, sha512_digest};
use crate::ingest::{arrival_fault, attachment_rows, item_size_ok, newer_than, reply_row};
use crate::keys::{ed25519_accepts, SIGNATURE_BYTES, USER_ID_BYTES};
use crate::model::{
    FollowView, ItemDisplayRowView, ItemRowView, ItemView, PruneOpts, PruneReport, QuotaDenyReason,
    ServerUserView, UsageRowView,
};
use crate::rows::{
    AttachmentRowView, BlobView, FollowRowView, ProfileRowView, ReplyRowView, StoredItemView,
};
use crate::seqs::{any, clipped, each, first_match, lead, pairwise, total};
use crate::text::{blank, has_separator};

verus! {

/// Number of bytes in the key of an upload under way. No hash is that short.
pub const TEMP_KEY_BYTES: usize = 31;

/// The item signed `signature` by `user`.
pub open spec fn item_is(user: Seq<u8>, signature: Seq<u8>) -> spec_fn(StoredItemView) -> bool {
    |e: StoredItemView| e.row.user == user && e.row.signature == signature
}

/// The server user `user`.
pub open spec fn server_user_is(user: Seq<u8>) -> spec_fn(ServerUserView) -> bool {
    |s: ServerUserView| s.user == user
}

/// The server user `user`, where shown on the home page.
pub open spec fn homepage_user_is(user: Seq<u8>) -> spec_fn(ServerUserView) -> bool {
    |s: ServerUserView| s.user == user && s.on_homepage
}

/// The profile row of `user`.
pub open spec fn profile_is(user: Seq<u8>) -> spec_fn(ProfileRowView) -> bool {
    |p: ProfileRowView| p.user == user
}

/// The row by which `source` follows `followed`.
pub open spec fn follow_is(source: Seq<u8>, followed: Seq<u8>) -> spec_fn(FollowRowView) -> bool {
    |f: FollowRowView| f.source == source && f.followed == followed
}

/// A row by which one of `server_users` follows `followed`.
pub open spec fn trusted_follow_of(
    server_users: Seq<ServerUserView>,
    followed: Seq<u8>,
) -> spec_fn(FollowRowView) -> bool {
    |f: FollowRowView| f.followed == followed && any(server_users, server_user_is(f.source))
}

/// Whether `user` is one of `server_users` or followed by one of them in `follows`.
pub open spec fn known_among(
    server_users: Seq<ServerUserView>,
    follows: Seq<FollowRowView>,
    user: Seq<u8>,
) -> bool {
    any(server_users, server_user_is(user)) || any(follows, trusted_follow_of(server_users, user))
}

/// The reply row that makes the item signed `signature` by `user` an answer
/// to the item signed `to_signature` by `to_user`.
pub open spec fn reply_is(
    user: Seq<u8>,
    signature: Seq<u8>,
    to_user: Seq<u8>,
    to_signature: Seq<u8>,
) -> spec_fn(ReplyRowView) -> bool {
    |r: ReplyRowView|
        r.from_user_id == user && r.from_signature == signature && r.to_user_id == to_user
            && r.to_signature == to_signature
}

/// The attachment called `name` of the item signed `signature` by `user`.
pub open spec fn attachment_is(
    user: Seq<u8>,
    signature: Seq<u8>,
    name: Seq<char>,
) -> spec_fn(AttachmentRowView) -> bool {
    |a: AttachmentRowView| a.user_id == user && a.signature == signature && a.name == name
}

/// An attachment with the hash `hash`.
pub open spec fn attachment_has_hash(hash: Seq<u8>) -> spec_fn(AttachmentRowView) -> bool {
    |a: AttachmentRowView| a.hash == hash
}

/// The contents stored under `key`.
pub open spec fn blob_is(key: Seq<u8>) -> spec_fn(BlobView) -> bool {
    |b: BlobView| b.key == key
}

/// Any server user but `user`.
pub open spec fn other_server_user(user: Seq<u8>) -> spec_fn(ServerUserView) -> bool {
    |s: ServerUserView| s.user != user
}

/// Any profile row but that of `user`.
pub open spec fn other_profile(user: Seq<u8>) -> spec_fn(ProfileRowView) -> bool {
    |p: ProfileRowView| p.user != user
}

/// Any follow row but those of `source`.
pub open spec fn not_from(source: Seq<u8>) -> spec_fn(FollowRowView) -> bool {
    |f: FollowRowView| f.source != source
}

/// Any follow row but the one by which `source` follows `followed`.
pub open spec fn other_follow(source: Seq<u8>, followed: Seq<u8>) -> spec_fn(FollowRowView) -> bool {
    |f: FollowRowView| !(f.source == source && f.followed == followed)
}

/// Any attachment row but the one called `name` of the item signed
/// `signature` by `user`.
pub open spec fn other_attachment(
    user: Seq<u8>,
    signature: Seq<u8>,
    name: Seq<char>,
) -> spec_fn(AttachmentRowView) -> bool {
    |a: AttachmentRowView| !(a.user_id == user && a.signature == signature && a.name == name)
}

/// An item that is not older than `timestamp`.
pub open spec fn not_older_than(timestamp: i64) -> spec_fn(StoredItemView) -> bool {
    |e: StoredItemView| e.row.timestamp >= timestamp
}

/// The place at which an item of the time `timestamp` goes into a table
/// that is kept newest first: behind every item that is not older.
pub open spec fn place_by_time(items: Seq<StoredItemView>, timestamp: i64) -> int {
    lead(items, not_older_than(timestamp))
}

/// The table with one more item, at its place by time.
pub open spec fn insert_by_time(items: Seq<StoredItemView>, new: StoredItemView) -> Seq<
    StoredItemView,
> {
    items.insert(place_by_time(items, new.row.timestamp), new)
}

/// The follow table with `row` in place of any row for the same pair.
pub open spec fn put_follow(table: Seq<FollowRowView>, row: FollowRowView) -> Seq<FollowRowView> {
    table.filter(other_follow(row.source, row.followed)).push(row)
}

/// The follow row by which `source` follows one user of a profile.
pub open spec fn follow_row_of(source: Seq<u8>, entry: FollowView) -> FollowRowView {
    FollowRowView { source, followed: entry.user, display_name: entry.display_name }
}

/// The follow table after the follows of a profile went in, one after the
/// other: where a user is followed twice, the last counts.
pub open spec fn put_follows(
    table: Seq<FollowRowView>,
    source: Seq<u8>,
    entries: Seq<FollowView>,
) -> Seq<FollowRowView>
    decreases entries.len(),
{
    if entries.len() == 0 {
        table
    } else {
        put_follow(
            put_follows(table, source, entries.drop_last()),
            follow_row_of(source, entries.last()),
        )
    }
}

/// The profile table with `row` in place of any row for the same user.
pub open spec fn put_profile(table: Seq<ProfileRowView>, row: ProfileRowView) -> Seq<
    ProfileRowView,
> {
    table.filter(other_profile(row.user)).push(row)
}

/// The attachment table with `row` in place of any row of the same name
/// for the same item.
pub open spec fn put_attachment(table: Seq<AttachmentRowView>, row: AttachmentRowView) -> Seq<
    AttachmentRowView,
> {
    table.filter(other_attachment(row.user_id, row.signature, row.name)).push(row)
}

/// The attachment table after `rows` went in, one after the other.
pub open spec fn put_attachments(
    table: Seq<AttachmentRowView>,
    rows: Seq<AttachmentRowView>,
) -> Seq<AttachmentRowView>
    decreases rows.len(),
{
    if rows.len() == 0 {
        table
    } else {
        put_attachment(put_attachments(table, rows.drop_last()), rows.last())
    }
}

/// Contents that an attachment row names.
pub open spec fn referenced_in(attachments: Seq<AttachmentRowView>) -> spec_fn(BlobView) -> bool {
    |b: BlobView| any(attachments, attachment_has_hash(b.key))
}

/// Contents that no attachment row names.
pub open spec fn unreferenced_in(attachments: Seq<AttachmentRowView>) -> spec_fn(BlobView) -> bool {
    |b: BlobView| !any(attachments, attachment_has_hash(b.key))
}

/// The number of bytes of stored contents.
pub open spec fn blob_size() -> spec_fn(BlobView) -> nat {
    |b: BlobView| b.contents.len()
}

/// The declared size of an attachment.
pub open spec fn attachment_size() -> spec_fn(AttachmentRowView) -> nat {
    |a: AttachmentRowView|
        if a.size >= 0 {
            a.size as nat
        } else {
            0
        }
}

/// An item of `user`.
pub open spec fn item_by(user: Seq<u8>) -> spec_fn(StoredItemView) -> bool {
    |e: StoredItemView| e.row.user == user
}

/// An attachment row of an item of `user`.
pub open spec fn attachment_by(user: Seq<u8>) -> spec_fn(AttachmentRowView) -> bool {
    |a: AttachmentRowView| a.user_id == user
}

/// A usage row with a total of at least `total`.
pub open spec fn not_smaller_than(total: u64) -> spec_fn(UsageRowView) -> bool {
    |r: UsageRowView| r.total_bytes >= total
}

/// The number of bytes of an item.
pub open spec fn item_size() -> spec_fn(StoredItemView) -> nat {
    |e: StoredItemView| e.row.item_bytes.len()
}

/// The row of a stored item.
pub open spec fn row_of() -> spec_fn(StoredItemView) -> ItemRowView {
    |e: StoredItemView| e.row
}

/// The name under which an author is shown: the name that the reader gave
/// them, unless that is missing or blank; else the author's own, unless that
/// is missing or blank; else none.
pub open spec fn shown_name(given: Option<Seq<char>>, own: Option<Seq<char>>) -> Option<
    Seq<char>,
> {
    let first = match given {
        Some(g) => if blank(g) { own } else { given },
        None => own,
    };
    match first {
        Some(n) => if blank(n) { None } else { first },
        None => None,
    }
}

/// What is wrong with uploaded contents, if anything: they are not of the
/// declared size, or they do not hash to the declared hash.
pub open spec fn contents_fault(size: u64, hash: Seq<u8>, contents: Seq<u8>) -> Option<Failure> {
    if contents.len() != size {
        Some(Failure::InvalidInput(InvalidInput::ContentLength))
    } else if sha512_digest(contents) != hash {
        Some(Failure::HashMismatch)
    } else {
        None
    }
}

/// The signed time of the item that the profile row of `user` points at.
pub open spec fn indexed_time(
    items: Seq<StoredItemView>,
    profiles: Seq<ProfileRowView>,
    user: Seq<u8>,
) -> Option<i64> {
    match first_match(profiles, profile_is(user)) {
        Some(p) => match first_match(items, item_is(p.user, p.signature)) {
            Some(e) => Some(e.row.timestamp),
            None => None,
        },
        None => None,
    }
}

/// A profile item is not newer than the one that its author's profile row
/// points at.
pub open spec fn profile_bound(
    items: Seq<StoredItemView>,
    profiles: Seq<ProfileRowView>,
) -> spec_fn(StoredItemView) -> bool {
    |e: StoredItemView|
        e.is_profile ==> match indexed_time(items, profiles, e.row.user) {
            Some(latest) => e.row.timestamp <= latest,
            None => false,
        }
}

/// A profile row points at a stored item that is a profile.
pub open spec fn profile_points(items: Seq<StoredItemView>) -> spec_fn(ProfileRowView) -> bool {
    |p: ProfileRowView|
        match first_match(items, item_is(p.user, p.signature)) {
            Some(e) => e.is_profile,
            None => false,
        }
}

/// The row under which an item is filed: by its author and signature, at
/// the time that is signed inside it.
pub open spec fn row_for(
    user: Seq<u8>,
    signature: Seq<u8>,
    bytes: Seq<u8>,
    item: ItemView,
    received: i64,
) -> ItemRowView {
    ItemRowView {
        user,
        signature,
        timestamp: item.timestamp_ms_utc,
        received,
        item_bytes: bytes,
    }
}

/// What the server knows of an attachment.
pub struct FileMetaView {
    pub exists: bool,
    pub hash: Seq<u8>,
    pub size: u64,
    pub quota_exceeded: bool,
}

/// The tables of the store.
pub struct Tables {
    /// The items, newest first.
    pub items: Seq<StoredItemView>,
    pub server_users: Seq<ServerUserView>,
    pub follows: Seq<FollowRowView>,
    pub profiles: Seq<ProfileRowView>,
    pub replies: Seq<ReplyRowView>,
    pub attachments: Seq<AttachmentRowView>,
    pub blobs: Seq<BlobView>,
}

/// An item is not older than a later one in the table, and is another item.
pub open spec fn items_in_order() -> spec_fn(StoredItemView, StoredItemView) -> bool {
    |a: StoredItemView, b: StoredItemView|
        a.row.timestamp >= b.row.timestamp && !(a.row.user == b.row.user && a.row.signature
            == b.row.signature)
}

/// Two rows of the server user table are for different users.
pub open spec fn distinct_server_users() -> spec_fn(ServerUserView, ServerUserView) -> bool {
    |a: ServerUserView, b: ServerUserView| a.user != b.user
}

/// Whether the item signed `s1` by `u1` is listed before the one signed
/// `s2` by `u2` where all items are listed: by author, then by signature.
pub open spec fn key_less(u1: Seq<u8>, s1: Seq<u8>, u2: Seq<u8>, s2: Seq<u8>) -> bool {
    bytes_less(u1, u2) || (u1 == u2 && bytes_less(s1, s2))
}

/// An item behind the cursor: any item where there is no cursor.
pub open spec fn behind_cursor(cursor: Option<(Seq<u8>, Seq<u8>)>) -> spec_fn(
    StoredItemView,
) -> bool {
    |e: StoredItemView|
        match cursor {
            Some((user, signature)) => key_less(user, signature, e.row.user, e.row.signature),
            None => true,
        }
}

/// An item row that is listed before `new`.
pub open spec fn row_sorts_before(new: ItemRowView) -> spec_fn(ItemRowView) -> bool {
    |r: ItemRowView| key_less(r.user, r.signature, new.user, new.signature)
}

/// The rows of `items` that lie behind the cursor, by author and signature.
pub open spec fn rows_by_key(items: Seq<StoredItemView>, cursor: Option<(Seq<u8>, Seq<u8>)>) -> Seq<
    ItemRowView,
>
    decreases items.len(),
{
    if items.len() == 0 {
        Seq::empty()
    } else {
        let rest = rows_by_key(items.drop_last(), cursor);
        let e = items.last();
        if behind_cursor(cursor)(e) {
            rest.insert(lead(rest, row_sorts_before(e.row)), e.row)
        } else {
            rest
        }
    }
}

/// The cursor that the two halves of one make: none unless both are there.
pub open spec fn cursor_of(user: Option<Seq<u8>>, signature: Option<Seq<u8>>) -> Option<
    (Seq<u8>, Seq<u8>),
> {
    match (user, signature) {
        (Some(u), Some(s)) => Some((u, s)),
        _ => None,
    }
}

/// Whether `a` is listed before `b`: the server users that are not shown on
/// the home page come first, and among those of one kind the smaller key.
pub open spec fn server_user_before(a: ServerUserView, b: ServerUserView) -> bool {
    (!a.on_homepage && b.on_homepage) || (a.on_homepage == b.on_homepage && bytes_less(
        a.user,
        b.user,
    ))
}

/// A server user that is listed before `new`.
pub open spec fn sorts_before(new: ServerUserView) -> spec_fn(ServerUserView) -> bool {
    |s: ServerUserView| server_user_before(s, new)
}

/// A server user is listed before a later one in the table.
pub open spec fn server_users_in_order() -> spec_fn(ServerUserView, ServerUserView) -> bool {
    |a: ServerUserView, b: ServerUserView| server_user_before(a, b)
}

/// Two rows of the follow table are for different pairs of follower and followed.
pub open spec fn distinct_follows() -> spec_fn(FollowRowView, FollowRowView) -> bool {
    |a: FollowRowView, b: FollowRowView| !(a.source == b.source && a.followed == b.followed)
}

/// Two rows of the profile table are for different users.
pub open spec fn distinct_profiles() -> spec_fn(ProfileRowView, ProfileRowView) -> bool {
    |a: ProfileRowView, b: ProfileRowView| a.user != b.user
}

/// Two rows of the attachment table differ in item or in name.
pub open spec fn distinct_attachments() -> spec_fn(AttachmentRowView, AttachmentRowView) -> bool {
    |a: AttachmentRowView, b: AttachmentRowView|
        !(a.user_id == b.user_id && a.signature == b.signature && a.name == b.name)
}

/// Two rows of contents lie under different keys.
pub open spec fn distinct_blobs() -> spec_fn(BlobView, BlobView) -> bool {
    |a: BlobView, b: BlobView| a.key != b.key
}

/// The item is named by a key and a signature of the right lengths, the
/// signature verifies, and the item is not larger than the server takes.
pub open spec fn item_sound() -> spec_fn(StoredItemView) -> bool {
    |e: StoredItemView|
        e.row.user.len() == USER_ID_BYTES && e.row.signature.len() == SIGNATURE_BYTES
            && ed25519_accepts(e.row.user, e.row.item_bytes, e.row.signature) && item_size_ok(
            e.row.item_bytes.len(),
        )
}

/// Contents that lie under a key of the length of a hash: not those of an
/// upload under way.
pub open spec fn blob_at_rest() -> spec_fn(BlobView) -> bool {
    |b: BlobView| b.key.len() == HASH_BYTES
}

/// The attachment has a size that is not negative, a name without a path
/// separator, and a hash of the right length.
pub open spec fn attachment_sound() -> spec_fn(AttachmentRowView) -> bool {
    |a: AttachmentRowView| a.size >= 0 && !has_separator(a.name) && a.hash.len() == HASH_BYTES
}

/// The contents are stored under their hash, or under the short key of an upload.
pub open spec fn blob_sound() -> spec_fn(BlobView) -> bool {
    |b: BlobView|
        (b.key.len() == HASH_BYTES && sha512_digest(b.contents) == b.key) || b.key.len()
            == TEMP_KEY_BYTES
}

impl Tables {
    /// The store with nothing in it.
    pub open spec fn empty() -> Tables {
        Tables {
            items: Seq::empty(),
            server_users: Seq::empty(),
            follows: Seq::empty(),
            profiles: Seq::empty(),
            replies: Seq::empty(),
            attachments: Seq::empty(),
            blobs: Seq::empty(),
        }
    }

    /// Whether the administrator trusts `user` directly.
    pub open spec fn is_server_user(self, user: Seq<u8>) -> bool {
        any(self.server_users, server_user_is(user))
    }

    /// Whether `user` is a server user whose items appear on the home page.
    pub open spec fn on_homepage(self, user: Seq<u8>) -> bool {
        any(self.server_users, homepage_user_is(user))
    }

    /// Whether the latest profile of `source` follows `followed`.
    pub open spec fn follows_user(self, source: Seq<u8>, followed: Seq<u8>) -> bool {
        any(self.follows, follow_is(source, followed))
    }

    /// Whether some server user follows `user`.
    pub open spec fn followed_by_server_user(self, user: Seq<u8>) -> bool {
        any(self.follows, trusted_follow_of(self.server_users, user))
    }

    /// Whether the server shows what `user` wrote: a server user, or one
    /// whom a server user follows.
    pub open spec fn known(self, user: Seq<u8>) -> bool {
        known_among(self.server_users, self.follows, user)
    }

    /// Whether the item is stored, shown or not.
    pub open spec fn has_item(self, user: Seq<u8>, signature: Seq<u8>) -> bool {
        any(self.items, item_is(user, signature))
    }

    /// The item signed `signature` by `user`, where its author is known.
    pub open spec fn user_item(self, user: Seq<u8>, signature: Seq<u8>) -> Option<ItemRowView> {
        if self.known(user) {
            match first_match(self.items, item_is(user, signature)) {
                Some(e) => Some(e.row),
                None => None,
            }
        } else {
            None
        }
    }

    /// The latest profile of `user`, where `user` is known.
    pub open spec fn user_profile(self, user: Seq<u8>) -> Option<ItemRowView> {
        match first_match(self.profiles, profile_is(user)) {
            Some(p) => self.user_item(p.user, p.signature),
            None => None,
        }
    }

    /// The name that `user` goes by in their latest profile.
    pub open spec fn profile_name(self, user: Seq<u8>) -> Option<Seq<char>> {
        match first_match(self.profiles, profile_is(user)) {
            Some(p) => Some(p.display_name),
            None => None,
        }
    }

    /// The name that `source` gives `followed`.
    pub open spec fn follow_name(self, source: Seq<u8>, followed: Seq<u8>) -> Option<Seq<char>> {
        match first_match(self.follows, follow_is(source, followed)) {
            Some(f) => Some(f.display_name),
            None => None,
        }
    }

    /// Whether the item signed `signature` by `user` answers the item signed
    /// `to_signature` by `to_user`.
    pub open spec fn is_reply(
        self,
        user: Seq<u8>,
        signature: Seq<u8>,
        to_user: Seq<u8>,
        to_signature: Seq<u8>,
    ) -> bool {
        any(self.replies, reply_is(user, signature, to_user, to_signature))
    }

    /// An item of the home page that is older than `before`.
    pub open spec fn on_homepage_before(self, before: i64) -> spec_fn(StoredItemView) -> bool {
        |e: StoredItemView| e.row.timestamp < before && self.on_homepage(e.row.user)
    }

    /// An item of `user` that is older than `before`, where `user` is known.
    pub open spec fn by_user_before(self, user: Seq<u8>, before: i64) -> spec_fn(
        StoredItemView,
    ) -> bool {
        |e: StoredItemView|
            e.row.timestamp < before && e.row.user == user && self.known(e.row.user)
    }

    /// An answer to the item signed `signature` by `user` that is older than
    /// `before` and written by a known user.
    pub open spec fn reply_before(self, user: Seq<u8>, signature: Seq<u8>, before: i64) -> spec_fn(
        StoredItemView,
    ) -> bool {
        |e: StoredItemView|
            e.row.timestamp < before && self.is_reply(e.row.user, e.row.signature, user, signature)
                && self.known(e.row.user)
    }

    /// An item older than `before`, written by `user` or by one whom `user`
    /// follows, and by a known user.
    pub open spec fn in_feed_before(self, user: Seq<u8>, before: i64) -> spec_fn(
        StoredItemView,
    ) -> bool {
        |e: StoredItemView|
            e.row.timestamp < before && (e.row.user == user || self.follows_user(user, e.row.user))
                && self.known(e.row.user)
    }

    /// An item with the name from its author's profile.
    pub open spec fn with_profile_name(self) -> spec_fn(StoredItemView) -> ItemDisplayRowView {
        |e: StoredItemView|
            ItemDisplayRowView { item: e.row, display_name: self.profile_name(e.row.user) }
    }

    /// An item with the name under which `reader` sees its author.
    pub open spec fn with_feed_name(self, reader: Seq<u8>) -> spec_fn(
        StoredItemView,
    ) -> ItemDisplayRowView {
        |e: StoredItemView|
            ItemDisplayRowView {
                item: e.row,
                display_name: shown_name(
                    self.follow_name(reader, e.row.user),
                    self.profile_name(e.row.user),
                ),
            }
    }

    /// All the items behind the cursor, shown or not, by author and signature.
    pub open spec fn all_items(self, cursor: Option<(Seq<u8>, Seq<u8>)>) -> Seq<ItemRowView> {
        rows_by_key(self.items, cursor)
    }

    /// The home page: the items of the server users that are shown on it,
    /// older than `before`, newest first.
    pub open spec fn homepage_items(self, before: i64) -> Seq<ItemDisplayRowView> {
        self.items.filter(self.on_homepage_before(before)).map_values(self.with_profile_name())
    }

    /// The items of `user` older than `before`, newest first; none where
    /// `user` is not known.
    pub open spec fn user_items(self, user: Seq<u8>, before: i64) -> Seq<ItemRowView> {
        self.items.filter(self.by_user_before(user, before)).map_values(row_of())
    }

    /// The answers of known users to an item, older than `before`, newest first.
    pub open spec fn reply_items(self, user: Seq<u8>, signature: Seq<u8>, before: i64) -> Seq<
        ItemRowView,
    > {
        self.items.filter(self.reply_before(user, signature, before)).map_values(row_of())
    }

    /// The feed of `user`: the items older than `before` of `user` and of
    /// those whom `user` follows, as far as their authors are known, newest
    /// first.
    pub open spec fn user_feed_items(self, user: Seq<u8>, before: i64) -> Seq<ItemDisplayRowView> {
        self.items.filter(self.in_feed_before(user, before)).map_values(self.with_feed_name(user))
    }

    /// Why `user` may not store an item, if so: only a known user may.
    pub open spec fn quota_check(self, user: Seq<u8>) -> Option<QuotaDenyReason> {
        if self.known(user) {
            None
        } else {
            Some(QuotaDenyReason::UnknownUser)
        }
    }

    /// What is known of the attachment `name` of an item; nothing where the
    /// item declares no such file or its author is not known.
    pub open spec fn attachment_meta(
        self,
        user: Seq<u8>,
        signature: Seq<u8>,
        name: Seq<char>,
    ) -> Option<FileMetaView> {
        if self.known(user) {
            match first_match(self.attachments, attachment_is(user, signature, name)) {
                Some(a) => Some(
                    FileMetaView {
                        exists: any(self.blobs, blob_is(a.hash)),
                        hash: a.hash,
                        size: a.size as u64,
                        quota_exceeded: false,
                    },
                ),
                None => None,
            }
        } else {
            None
        }
    }

    /// The stored contents of the attachment `name` of an item, with the
    /// declared size; nothing where the item declares no such file, the
    /// contents were not uploaded, or the author is not known.
    pub open spec fn attachment_contents(
        self,
        user: Seq<u8>,
        signature: Seq<u8>,
        name: Seq<char>,
    ) -> Option<(AttachmentRowView, BlobView)> {
        if self.known(user) {
            match first_match(self.attachments, attachment_is(user, signature, name)) {
                Some(a) => match first_match(self.blobs, blob_is(a.hash)) {
                    Some(b) => Some((a, b)),
                    None => None,
                },
                None => None,
            }
        } else {
            None
        }
    }

    /// The signed time of the profile that is indexed for `user`.
    pub open spec fn indexed_profile_time(self, user: Seq<u8>) -> Option<i64> {
        indexed_time(self.items, self.profiles, user)
    }

    /// Whether a profile of `user` signed at `timestamp` takes the place of
    /// the one that is indexed: where none is, or an older one.
    pub open spec fn supersedes(self, user: Seq<u8>, timestamp: i64) -> bool {
        newer_than(self.indexed_profile_time(user), timestamp)
    }

    /// Why an item cannot be saved, if so: it is stored already, or it is a
    /// comment with a malformed target, or it declares a faulty file.
    pub open spec fn save_fault(self, row: ItemRowView, item: ItemView) -> Option<Failure> {
        if self.has_item(row.user, row.signature) {
            Some(Failure::Duplicate)
        } else {
            match reply_row(row, item) {
                Err(fault) => Some(Failure::InvalidInput(fault)),
                Ok(_) => match attachment_rows(row, item) {
                    Err(fault) => Some(Failure::InvalidInput(fault)),
                    Ok(_) => None,
                },
            }
        }
    }

    /// The store after the profile `item` of `row` was indexed: where it
    /// supersedes the indexed one, its follows have replaced those of its
    /// author, and the profile row points at it.
    pub open spec fn with_profile(self, row: ItemRowView, item: ItemView) -> Tables {
        if self.supersedes(row.user, row.timestamp) {
            Tables {
                follows: put_follows(
                    self.follows.filter(not_from(row.user)),
                    row.user,
                    item.follows(),
                ),
                profiles: put_profile(
                    self.profiles,
                    ProfileRowView {
                        user: row.user,
                        signature: row.signature,
                        display_name: item.display_name(),
                    },
                ),
                ..self
            }
        } else {
            self
        }
    }

    /// The store after `item` was saved under `row`: the item is in the item
    /// table; a profile that supersedes the indexed one has replaced the
    /// author's follows and profile row; a comment has its reply row; the
    /// declared files have their attachment rows.
    pub open spec fn saved(self, row: ItemRowView, item: ItemView) -> Tables {
        let is_profile = item.item_type is Profile;
        let indexed = if is_profile {
            self.with_profile(row, item)
        } else {
            self
        };
        Tables {
            items: insert_by_time(self.items, StoredItemView { row, is_profile }),
            server_users: self.server_users,
            follows: indexed.follows,
            profiles: indexed.profiles,
            replies: match reply_row(row, item) {
                Ok(Some(reply)) => self.replies.push(reply),
                _ => self.replies,
            },
            attachments: match attachment_rows(row, item) {
                Ok(rows) => put_attachments(self.attachments, rows),
                Err(_) => self.attachments,
            },
            blobs: self.blobs,
        }
    }

    /// Why contents cannot be stored under `hash`, if so: the key of the
    /// upload is taken, the contents are not of the declared size, or they
    /// do not hash to `hash`.
    pub open spec fn upload_fault(
        self,
        temp_key: Seq<u8>,
        size: u64,
        hash: Seq<u8>,
        contents: Seq<u8>,
    ) -> Option<Failure> {
        if any(self.blobs, blob_is(temp_key)) {
            Some(Failure::Conflict)
        } else {
            contents_fault(size, hash, contents)
        }
    }

    /// The store with `contents` under `hash`. Where contents are there
    /// under that hash already, they stay and nothing is added.
    pub open spec fn with_contents(self, hash: Seq<u8>, contents: Seq<u8>) -> Tables {
        if any(self.blobs, blob_is(hash)) {
            self
        } else {
            Tables { blobs: self.blobs.push(BlobView { key: hash, contents }), ..self }
        }
    }

    /// An item whose author is known.
    pub open spec fn item_of_known(self) -> spec_fn(StoredItemView) -> bool {
        |e: StoredItemView| self.known(e.row.user)
    }

    /// An item whose author is not known.
    pub open spec fn item_of_unknown(self) -> spec_fn(StoredItemView) -> bool {
        |e: StoredItemView| !self.known(e.row.user)
    }

    /// An attachment row of an item whose author is known.
    pub open spec fn attachment_of_known(self) -> spec_fn(AttachmentRowView) -> bool {
        |a: AttachmentRowView| self.known(a.user_id)
    }

    /// A reply row of a comment whose author is known.
    pub open spec fn reply_of_known(self) -> spec_fn(ReplyRowView) -> bool {
        |r: ReplyRowView| self.known(r.from_user_id)
    }

    /// The profile row of a known user.
    pub open spec fn profile_of_known(self) -> spec_fn(ProfileRowView) -> bool {
        |p: ProfileRowView| self.known(p.user)
    }

    /// A follow row from the profile of a known user.
    pub open spec fn follow_of_known(self) -> spec_fn(FollowRowView) -> bool {
        |f: FollowRowView| self.known(f.source)
    }

    /// The store without the contents that no attachment row names.
    pub open spec fn without_unused_contents(self) -> Tables {
        Tables { blobs: self.blobs.filter(referenced_in(self.attachments)), ..self }
    }

    /// The store without the items of authors who are not known, and
    /// without the rows that were made for those items.
    pub open spec fn without_unknown_items(self) -> Tables {
        Tables {
            items: self.items.filter(self.item_of_known()),
            attachments: self.attachments.filter(self.attachment_of_known()),
            replies: self.replies.filter(self.reply_of_known()),
            profiles: self.profiles.filter(self.profile_of_known()),
            follows: self.follows.filter(self.follow_of_known()),
            ..self
        }
    }

    /// The store after a pruning run that deletes: first the unused
    /// contents, if asked, then the items of unknown authors, if asked.
    pub open spec fn pruned(self, opts: PruneOpts) -> Tables {
        let first = if opts.attachments {
            self.without_unused_contents()
        } else {
            self
        };
        if opts.items {
            first.without_unknown_items()
        } else {
            first
        }
    }

    /// What a pruning run deletes: the items of unknown authors, the
    /// contents that no attachment row names, and the bytes of both, each
    /// as far as the run was asked for it.
    pub open spec fn prune_report(self, opts: PruneOpts) -> PruneReport {
        let blobs_gone = if opts.attachments {
            self.blobs.filter(unreferenced_in(self.attachments))
        } else {
            Seq::empty()
        };
        let items_gone = if opts.items {
            self.items.filter(self.item_of_unknown())
        } else {
            Seq::empty()
        };
        PruneReport {
            items_deleted: clipped(items_gone.len()),
            attachments_deleted: clipped(blobs_gone.len()),
            bytes_reclaimed: clipped(total(blobs_gone, blob_size()) + total(items_gone, item_size())),
        }
    }

    /// Why an item that a client sends is turned down, if so. In this
    /// order: it is too large; its signature does not verify; its bytes are
    /// no record; it was signed too far from the time `received` at which
    /// it came; its author is not known; it cannot be saved.
    pub open spec fn put_fault(
        self,
        user: Seq<u8>,
        signature: Seq<u8>,
        bytes: Seq<u8>,
        parsed: Option<ItemView>,
        received: i64,
        max_drift_ms: Option<u64>,
    ) -> Option<Failure> {
        match arrival_fault(user, signature, bytes, parsed, received, max_drift_ms) {
            Some(fault) => Some(fault),
            None => match self.quota_check(user) {
                Some(reason) => Some(Failure::QuotaDenied(reason)),
                None => self.save_fault(
                    row_for(user, signature, bytes, parsed->Some_0, received),
                    parsed->Some_0,
                ),
            },
        }
    }

    /// How much of the store `user` takes up: the bytes of their items, the
    /// declared sizes of the files of those items, and the two together,
    /// each as far as 64 bits hold it.
    pub open spec fn usage_of(self, user: Seq<u8>) -> UsageRowView {
        let items_bytes = total(self.items.filter(item_by(user)), item_size());
        let attachments_bytes = total(
            self.attachments.filter(attachment_by(user)),
            attachment_size(),
        );
        UsageRowView {
            user_id: user,
            display_name: self.profile_name(user),
            items_bytes: clipped(items_bytes),
            attachments_bytes: clipped(attachments_bytes),
            total_bytes: clipped(items_bytes + attachments_bytes),
        }
    }

    /// The usage of the authors of `items`, largest total first. Of two
    /// authors with the same total, the one whose newest item is newer
    /// comes first.
    pub open spec fn usage_among(self, items: Seq<StoredItemView>) -> Seq<UsageRowView>
        decreases items.len(),
    {
        if items.len() == 0 {
            Seq::empty()
        } else {
            let rest = self.usage_among(items.drop_last());
            let user = items.last().row.user;
            if any(items.drop_last(), item_by(user)) {
                rest
            } else {
                let row = self.usage_of(user);
                rest.insert(lead(rest, not_smaller_than(row.total_bytes)), row)
            }
        }
    }

    /// The usage of every author who has an item in the store, largest
    /// total first.
    pub open spec fn usage_by_user(self) -> Seq<UsageRowView> {
        self.usage_among(self.items)
    }

    /// The store with one more server user.
    pub open spec fn with_server_user(self, server_user: ServerUserView) -> Tables {
        Tables {
            server_users: self.server_users.insert(
                lead(self.server_users, sorts_before(server_user)),
                server_user,
            ),
            ..self
        }
    }

    /// The store without the server user `user`.
    pub open spec fn without_server_user(self, user: Seq<u8>) -> Tables {
        Tables { server_users: self.server_users.filter(other_server_user(user)), ..self }
    }

    /// No upload is under way: all contents lie under their hashes.
    pub open spec fn settled(self) -> bool {
        each(self.blobs, blob_at_rest())
    }

    /// The profile table points, for each user who has sent a profile, at
    /// the profile of that user with the latest signed time.
    pub open spec fn profiles_indexed(self) -> bool {
        &&& each(self.items, profile_bound(self.items, self.profiles))
        &&& each(self.profiles, profile_points(self.items))
    }

    /// The rules that bind the tables.
    pub open spec fn wf(self) -> bool {
        &&& self.profiles_indexed()
        &&& pairwise(self.items, items_in_order())
        &&& each(self.items, item_sound())
        &&& pairwise(self.server_users, distinct_server_users())
        &&& pairwise(self.server_users, server_users_in_order())
        &&& pairwise(self.follows, distinct_follows())
        &&& pairwise(self.profiles, distinct_profiles())
        &&& pairwise(self.attachments, distinct_attachments())
        &&& each(self.attachments, attachment_sound())
        &&& pairwise(self.blobs, distinct_blobs())
        &&& each(self.blobs, blob_sound())
    }
}

} // verus!
