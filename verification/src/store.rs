//! The store: items, the tables that index them, and attachment contents.

use vstd::prelude::*;

use crate::blobs::{check_stored_size, check_upload, FileStream};
use crate::bytes::{bytes_before, bytes_equal, copy_bytes};
use crate::error::{Failure, InvalidInput};
use crate::hash::SHA512;
use crate::ingest::{
    check_item, get_attachment_rows, get_reply_row, item_size_ok, profile_supersedes, quota_check,
};
use crate::invariants::{
    lemma_one_server_user, lemma_pruned_settled, lemma_pruned_wf, lemma_saved_wf,
    lemma_settled_has_no_upload, lemma_with_server_user_wf, lemma_without_server_user_wf,
};
use crate::keys::{ed25519_accepts, opt_signature, opt_user, random_bytes, Signature, UserID};
use crate::model::{
    FileMeta, Follow, Item, ItemDisplayRow, ItemRow, ItemType, opt_item, opt_text, PruneOpts,
    PruneReport, QuotaDenyReason, ServerUser, UsageRow,
};
use crate::rows::{
    AttachmentRow, Blob, BlobView, FollowRow, FollowRowView, ProfileRow, ReplyRow, StoredItem,
};
use crate::seqs::{
    any, clipped, first_match, itself, lemma_any_exists, lemma_map_itself, lemma_push_each,
    lemma_push_keeps, lemma_push_pairwise, lemma_some_match, total,
};
use crate::state::{
    attachment_by, attachment_has_hash, attachment_is, attachment_size, attachment_sound,
    blob_at_rest, blob_is, blob_size, blob_sound, contents_fault, cursor_of, distinct_blobs,
    FileMetaView, follow_is, homepage_user_is, insert_by_time, item_by, item_is, item_size,
    key_less, known_among, not_from, not_older_than, not_smaller_than, other_attachment,
    other_follow, other_profile, other_server_user, profile_is, put_attachments, put_follows,
    referenced_in, reply_is, row_for, row_of, row_sorts_before, rows_by_key, server_user_is,
    shown_name, sorts_before, Tables, TEMP_KEY_BYTES, trusted_follow_of, unreferenced_in,
};
use crate::tables::{find_row, insert_behind, retain_rows, select_rows, tally_rows, views};
use crate::text::is_blank;
use crate::time::Timestamp;

verus! {

/// The store.
pub struct Store {
    items: Vec<StoredItem>,
    server_users: Vec<ServerUser>,
    follows: Vec<FollowRow>,
    profiles: Vec<ProfileRow>,
    replies: Vec<ReplyRow>,
    attachments: Vec<AttachmentRow>,
    blobs: Vec<Blob>,
}

impl View for Store {
    type V = Tables;

    closed spec fn view(&self) -> Tables {
        Tables {
            items: views(self.items@),
            server_users: views(self.server_users@),
            follows: views(self.follows@),
            profiles: views(self.profiles@),
            replies: views(self.replies@),
            attachments: views(self.attachments@),
            blobs: views(self.blobs@),
        }
    }
}

/// What a `FileMeta` holds.
pub open spec fn file_meta_view(meta: FileMeta) -> FileMetaView {
    FileMetaView {
        exists: meta.exists,
        hash: meta.hash@,
        size: meta.size,
        quota_exceeded: meta.quota_exceeded,
    }
}

/// The name under which an author is shown: `given`, the name that the
/// reader gave them, unless it is missing or blank; else `own`, the author's
/// own, unless that is missing or blank; else none.
pub fn display_name_for(given: Option<String>, own: Option<String>) -> (name: Option<String>)
    ensures
        opt_text(name) == shown_name(opt_text(given), opt_text(own)),
{
    let first = match given {
        Some(g) => if is_blank(g.as_str()) {
            own
        } else {
            Some(g)
        },
        None => own,
    };
    match first {
        Some(n) => if is_blank(n.as_str()) {
            None
        } else {
            Some(n)
        },
        None => None,
    }
}

/// Whether the item signed `s1` by `u1` is listed before the one signed
/// `s2` by `u2` where all items are listed.
fn key_before(u1: &UserID, s1: &Signature, u2: &UserID, s2: &Signature) -> (before: bool)
    ensures
        before == key_less(u1@, s1@, u2@, s2@),
{
    bytes_before(u1.bytes(), u2.bytes()) || (u1.same(u2) && bytes_before(s1.bytes(), s2.bytes()))
}

/// Whether `user` is a server user or followed by one.
fn known_in(server_users: &Vec<ServerUser>, follows: &Vec<FollowRow>, user: &UserID) -> (known:
    bool)
    ensures
        known == known_among(views(server_users@), views(follows@), user@),
{
    let is_server_user = |s: &ServerUser| -> (b: bool)
        ensures
            b == server_user_is(user@)(s@),
        { s.user.same(user) };
    if find_row(server_users, is_server_user, Ghost(server_user_is(user@))).is_some() {
        return true;
    }
    let trusted = |f: &FollowRow| -> (b: bool)
        ensures
            b == trusted_follow_of(views(server_users@), user@)(f@),
        {
            if bytes_equal(f.followed.as_slice(), user.bytes()) {
                let source = &f.source;
                let is_source = |s: &ServerUser| -> (b: bool)
                    ensures
                        b == server_user_is(source@)(s@),
                    { s.user.same(source) };
                find_row(server_users, is_source, Ghost(server_user_is(source@))).is_some()
            } else {
                false
            }
        };
    find_row(follows, trusted, Ghost(trusted_follow_of(views(server_users@), user@))).is_some()
}

/// Puts an item into the item table, at its place by time.
fn insert_item(items: &mut Vec<StoredItem>, entry: StoredItem)
    ensures
        views(final(items)@) == insert_by_time(views(old(items)@), entry@),
{
    let timestamp = entry.row.timestamp.unix_utc_ms;
    let stays = |e: &StoredItem| -> (b: bool)
        ensures
            b == not_older_than(timestamp)(e@),
        { e.row.timestamp.unix_utc_ms >= timestamp };
    insert_behind(items, entry, stays, Ghost(not_older_than(timestamp)));
}

/// Puts the follows of a profile into the follow table, one after the other.
fn put_follow_rows(table: &mut Vec<FollowRow>, source: &UserID, entries: &[Follow])
    ensures
        views(final(table)@) == put_follows(views(old(table)@), source@, views(entries@)),
{
    let ghost before = views(table@);
    let ghost all = views(entries@);
    let mut i: usize = 0;
    proof {
        assert(all.subrange(0, 0) =~= Seq::empty());
    }
    while i < entries.len()
        invariant
            i <= entries@.len(),
            all == views(entries@),
            views(table@) == put_follows(before, source@, all.subrange(0, i as int)),
        decreases entries.len() - i,
    {
        let entry = &entries[i];
        proof {
            assert(all[i as int] == entry@);
            assert(all.subrange(0, i + 1).drop_last() =~= all.subrange(0, i as int));
            assert(all.subrange(0, i + 1).last() == entry@);
        }
        let other = |f: &FollowRow| -> (b: bool)
            ensures
                b == other_follow(source@, entry.user@)(f@),
            { !(f.source.same(source) && bytes_equal(f.followed.as_slice(), entry.user.as_slice())) };
        retain_rows(table, other, Ghost(other_follow(source@, entry.user@)));
        let ghost kept = views(table@);
        let row = FollowRow {
            source: source.clone(),
            followed: copy_bytes(entry.user.as_slice()),
            display_name: entry.display_name.clone(),
        };
        let ghost put = row@;
        table.push(row);
        assert(views(table@) =~= kept.push(put));
        i += 1;
    }
    assert(all.subrange(0, i as int) =~= all);
}

/// Puts attachment rows into the attachment table, one after the other.
fn save_attachment_rows(table: &mut Vec<AttachmentRow>, rows: &Vec<AttachmentRow>)
    ensures
        views(final(table)@) == put_attachments(views(old(table)@), views(rows@)),
{
    let ghost before = views(table@);
    let ghost all = views(rows@);
    let mut i: usize = 0;
    proof {
        assert(all.subrange(0, 0) =~= Seq::empty());
    }
    while i < rows.len()
        invariant
            i <= rows@.len(),
            all == views(rows@),
            views(table@) == put_attachments(before, all.subrange(0, i as int)),
        decreases rows.len() - i,
    {
        let row = rows[i].clone();
        proof {
            assert(all[i as int] == row@);
            assert(all.subrange(0, i + 1).drop_last() =~= all.subrange(0, i as int));
            assert(all.subrange(0, i + 1).last() == row@);
        }
        let other = |a: &AttachmentRow| -> (b: bool)
            ensures
                b == other_attachment(row.user_id@, row.signature@, row.name@)(a@),
            {
                !(a.user_id.same(&row.user_id) && a.signature.same(&row.signature) && a.name
                    == row.name)
            };
        retain_rows(table, other, Ghost(other_attachment(row.user_id@, row.signature@, row.name@)));
        let ghost kept = views(table@);
        let ghost put = row@;
        table.push(row);
        assert(views(table@) =~= kept.push(put));
        i += 1;
    }
    assert(all.subrange(0, i as int) =~= all);
}

impl Store {
    /// A store with nothing in it.
    pub fn new() -> (store: Store)
        ensures
            store@ == Tables::empty(),
            store@.wf(),
            store@.settled(),
    {
        let store = Store {
            items: Vec::new(),
            server_users: Vec::new(),
            follows: Vec::new(),
            profiles: Vec::new(),
            replies: Vec::new(),
            attachments: Vec::new(),
            blobs: Vec::new(),
        };
        assert(store@.items =~= Seq::empty());
        assert(store@.server_users =~= Seq::empty());
        assert(store@.follows =~= Seq::empty());
        assert(store@.profiles =~= Seq::empty());
        assert(store@.replies =~= Seq::empty());
        assert(store@.attachments =~= Seq::empty());
        assert(store@.blobs =~= Seq::empty());
        store
    }

    /// The server user `user`, if the administrator has added one.
    pub fn server_user(&self, user: &UserID) -> (found: Option<ServerUser>)
        ensures
            match found {
                Some(s) => first_match(self@.server_users, server_user_is(user@))
                    == Some(s@),
                None => !self@.is_server_user(user@),
            },
    {
        let test = |s: &ServerUser| -> (b: bool)
            ensures
                b == server_user_is(user@)(s@),
            { s.user.same(user) };
        match find_row(&self.server_users, test, Ghost(server_user_is(user@))) {
            Some(i) => Some(self.server_users[i].clone()),
            None => None,
        }
    }

    /// Adds a server user. Fails with `Conflict`, and changes nothing, where
    /// the user is a server user already.
    pub fn add_server_user(&mut self, server_user: &ServerUser) -> (r: Result<(), Failure>)
        requires
            old(self)@.wf(),
        ensures
            final(self)@.wf(),
            old(self)@.settled() ==> final(self)@.settled(),
            old(self)@.is_server_user(server_user@.user) ==> r == Err::<(), Failure>(
                Failure::Conflict,
            ) && final(self)@ == old(self)@,
            !old(self)@.is_server_user(server_user@.user) ==> r is Ok
                && final(self)@ == old(self)@.with_server_user(server_user@),
    {
        if self.is_server_user(&server_user.user) {
            return Err(Failure::Conflict);
        }
        proof {
            lemma_with_server_user_wf(self@, server_user@);
        }
        let stays = |s: &ServerUser| -> (b: bool)
            ensures
                b == sorts_before(server_user@)(s@),
            {
                (!s.on_homepage && server_user.on_homepage) || (s.on_homepage
                    == server_user.on_homepage && bytes_before(
                    s.user.bytes(),
                    server_user.user.bytes(),
                ))
            };
        insert_behind(
            &mut self.server_users,
            server_user.clone(),
            stays,
            Ghost(sorts_before(server_user@)),
        );
        Ok(())
    }

    /// Removes a server user, and says whether there was one to remove.
    pub fn remove_server_user(&mut self, user: &UserID) -> (removed: bool)
        requires
            old(self)@.wf(),
        ensures
            final(self)@.wf(),
            old(self)@.settled() ==> final(self)@.settled(),
            final(self)@ == old(self)@.without_server_user(user@),
            removed == old(self)@.is_server_user(user@),
    {
        let other = |s: &ServerUser| -> (b: bool)
            ensures
                b == other_server_user(user@)(s@),
            { !s.user.same(user) };
        let ghost before = self@.server_users;
        let gone = retain_rows(&mut self.server_users, other, Ghost(other_server_user(user@)));
        proof {
            lemma_without_server_user_wf(old(self)@, user@);
            lemma_one_server_user(before, user@);
        }
        gone > 0
    }

    /// The signed time of the profile that is indexed for `user`.
    fn indexed_profile_time(&self, user: &UserID) -> (time: Option<i64>)
        ensures
            time == self@.indexed_profile_time(user@),
    {
        let of_user = |p: &ProfileRow| -> (b: bool)
            ensures
                b == profile_is(user@)(p@),
            { p.user.same(user) };
        match find_row(&self.profiles, of_user, Ghost(profile_is(user@))) {
            Some(i) => {
                let profile = &self.profiles[i];
                let indexed = |e: &StoredItem| -> (b: bool)
                    ensures
                        b == item_is(profile.user@, profile.signature@)(e@),
                    { e.row.user.same(&profile.user) && e.row.signature.same(&profile.signature) };
                match find_row(
                    &self.items,
                    indexed,
                    Ghost(item_is(profile.user@, profile.signature@)),
                ) {
                    Some(j) => Some(self.items[j].row.timestamp.unix_utc_ms),
                    None => None,
                }
            },
            None => None,
        }
    }

    /// Indexes a profile that is being saved. Where it is newer than the
    /// profile indexed for its author, the follows listed in it replace all
    /// the author's follows, and the profile row points at it. Where it is
    /// not, nothing is replaced.
    fn update_profile(&mut self, item_row: &ItemRow, item: &Item)
        requires
            item@.item_type is Profile,
        ensures
            final(self)@ == old(self)@.with_profile(item_row@, item@),
    {
        let previous = self.indexed_profile_time(&item_row.user);
        if !profile_supersedes(previous, item_row.timestamp.unix_utc_ms) {
            return ;
        }
        match &item.item_type {
            ItemType::Profile { display_name, follows } => {
                let user = &item_row.user;
                let others = |f: &FollowRow| -> (b: bool)
                    ensures
                        b == not_from(user@)(f@),
                    { !f.source.same(user) };
                retain_rows(&mut self.follows, others, Ghost(not_from(user@)));
                assert(views(follows@) =~= item@.follows());
                put_follow_rows(&mut self.follows, user, follows.as_slice());
                let other = |p: &ProfileRow| -> (b: bool)
                    ensures
                        b == other_profile(user@)(p@),
                    { !p.user.same(user) };
                retain_rows(&mut self.profiles, other, Ghost(other_profile(user@)));
                let ghost kept = views(self.profiles@);
                let profile = ProfileRow {
                    user: item_row.user.clone(),
                    signature: item_row.signature.clone(),
                    display_name: display_name.clone(),
                };
                let ghost put = profile@;
                self.profiles.push(profile);
                assert(views(self.profiles@) =~= kept.push(put));
            },
            _ => {},
        }
    }

    /// Files the reply row of a comment that is being saved.
    fn save_comment_reply(&mut self, reply: Option<ReplyRow>)
        ensures
            final(self)@ == (match reply {
                Some(row) => Tables { replies: old(self)@.replies.push(row@), ..old(self)@ },
                None => old(self)@,
            }),
    {
        match reply {
            Some(reply) => {
                let ghost kept = views(self.replies@);
                let ghost put = reply@;
                self.replies.push(reply);
                assert(views(self.replies@) =~= kept.push(put));
            },
            None => {},
        }
    }

    /// Saves an item and brings the index tables up to date, all or nothing.
    ///
    /// The item goes into the item table. A profile that is newer than the
    /// one indexed for its author replaces the author's follows and profile
    /// row; an older one is kept as an item only. A comment gets its reply
    /// row, and each declared file its attachment row.
    ///
    /// Fails with `Duplicate` where the item is stored already, and with
    /// `InvalidInput` for a comment with a malformed target or a faulty file.
    pub fn save_user_item(&mut self, row: &ItemRow, item: &Item) -> (r: Result<(), Failure>)
        requires
            old(self)@.wf(),
            ed25519_accepts(row@.user, row@.item_bytes, row@.signature),
            item_size_ok(row@.item_bytes.len()),
            row@.timestamp == item@.timestamp_ms_utc,
        ensures
            final(self)@.wf(),
            old(self)@.settled() ==> final(self)@.settled(),
            match old(self)@.save_fault(row@, item@) {
                Some(fault) => r == Err::<(), Failure>(fault) && final(self)@ == old(self)@,
                None => r is Ok && final(self)@ == old(self)@.saved(row@, item@),
            },
    {
        if self.user_item_exists(&row.user, &row.signature) {
            return Err(Failure::Duplicate);
        }
        let reply = match get_reply_row(row, item) {
            Ok(reply) => reply,
            Err(fault) => {
                return Err(Failure::InvalidInput(fault));
            },
        };
        let attachment_rows = match get_attachment_rows(row, item) {
            Ok(rows) => rows,
            Err(fault) => {
                return Err(Failure::InvalidInput(fault));
            },
        };
        proof {
            use_type_invariant(&row.user);
            use_type_invariant(&row.signature);
            lemma_saved_wf(self@, row@, item@);
        }
        if item.has_profile() {
            self.update_profile(row, item);
        }
        insert_item(&mut self.items, StoredItem { row: row.clone(), is_profile: item.has_profile() });
        self.save_comment_reply(reply);
        save_attachment_rows(&mut self.attachments, &attachment_rows);
        Ok(())
    }

    /// Where the contents under `key` are.
    fn find_blob(&self, key: &[u8]) -> (place: Option<usize>)
        ensures
            match place {
                Some(i) => i < self.blobs@.len() && self.blobs@[i as int]@.key == key@
                    && first_match(self@.blobs, blob_is(key@)) == Some(
                    self.blobs@[i as int]@,
                ),
                None => !any(self@.blobs, blob_is(key@)),
            },
    {
        let stored = |b: &Blob| -> (hit: bool)
            ensures
                hit == blob_is(key@)(b@),
            { bytes_equal(b.key.as_slice(), key) };
        find_row(&self.blobs, stored, Ghost(blob_is(key@)))
    }

    /// Stores the contents of an attachment under their hash.
    ///
    /// The contents are first written under a random key of 31 bytes, which
    /// no hash can be. They are then hashed again; where the hash is not
    /// `hash`, they are thrown away. Otherwise they are moved under `hash`,
    /// unless contents are there already, in which case the new copy is
    /// thrown away.
    ///
    /// Fails with `InvalidInput(ContentLength)` where `contents` has other
    /// than `size` bytes, and with `HashMismatch` where it does not hash to
    /// `hash`; otherwise it succeeds. Only in a store that holds the
    /// contents of an upload under way can the random key be in use, and the
    /// call fail with `Conflict`. A failure changes nothing.
    pub fn save_attachment(&mut self, size: u64, hash: &SHA512, contents: &[u8]) -> (r: Result<
        (),
        Failure,
    >)
        requires
            old(self)@.wf(),
        ensures
            final(self)@.wf(),
            old(self)@.settled() ==> final(self)@.settled(),
            old(self)@.settled() ==> (match contents_fault(size, hash@, contents@) {
                Some(fault) => r == Err::<(), Failure>(fault),
                None => r is Ok,
            }),
            r is Ok ==> contents_fault(size, hash@, contents@) is None
                && final(self)@ == old(self)@.with_contents(hash@, contents@),
            r matches Err(fault) ==> final(self)@ == old(self)@ && (fault == Failure::Conflict
                || contents_fault(size, hash@, contents@) == Some(fault)),
    {
        let temp_key = random_bytes(TEMP_KEY_BYTES);
        proof {
            if self@.settled() {
                lemma_settled_has_no_upload(self@, temp_key@);
            }
        }
        self.save_attachment_under(temp_key, size, hash, contents)
    }

    /// Stores the contents of an attachment under their hash, by way of the
    /// key `temp_key`, as `save_attachment` does by way of a random one.
    pub fn save_attachment_under(
        &mut self,
        temp_key: Vec<u8>,
        size: u64,
        hash: &SHA512,
        contents: &[u8],
    ) -> (r: Result<(), Failure>)
        requires
            old(self)@.wf(),
            temp_key@.len() == TEMP_KEY_BYTES,
        ensures
            final(self)@.wf(),
            old(self)@.settled() ==> final(self)@.settled(),
            match old(self)@.upload_fault(temp_key@, size, hash@, contents@) {
                Some(fault) => r == Err::<(), Failure>(fault) && final(self)@ == old(self)@,
                None => r is Ok && final(self)@ == old(self)@.with_contents(hash@, contents@),
            },
    {
        let ghost before = self@.blobs;
        if self.find_blob(temp_key.as_slice()).is_some() {
            return Err(Failure::Conflict);
        }
        // The contents go in under the temporary key.
        let ghost temp = temp_key@;
        self.blobs.push(Blob { key: temp_key, contents: copy_bytes(contents) });
        let last = self.blobs.len() - 1;
        assert(self@.blobs =~= before.push(BlobView { key: temp, contents: contents@ }));
        // What was written is counted and hashed again.
        let written = self.blobs[last].contents.len() as u64;
        let written_hash = SHA512::of(self.blobs[last].contents.as_slice());
        match check_upload(size, written, hash, &written_hash) {
            Ok(_) => {},
            Err(fault) => {
                self.blobs.pop();
                assert(self@.blobs =~= before);
                return Err(fault);
            },
        }
        // The contents move to their place, unless it is taken.
        let place = hash.bytes();
        proof {
            lemma_push_keeps(
                before,
                BlobView { key: temp, contents: contents@ },
                blob_is(hash@),
            );
        }
        let taken = self.find_blob(place).is_some();
        match self.blobs.pop() {
            Some(upload) => {
                assert(self@.blobs =~= before);
                if !taken {
                    let mut row = upload;
                    row.key = copy_bytes(place);
                    let ghost put = row@;
                    self.blobs.push(row);
                    proof {
                        assert(self@.blobs =~= before.push(put));
                        lemma_any_exists(before, blob_is(hash@));
                        assert forall|k: int| 0 <= k < before.len() implies distinct_blobs()(
                            #[trigger] before[k],
                            put,
                        ) by {
                            assert(!blob_is(hash@)(before[k]));
                        }
                        lemma_push_pairwise(before, put, distinct_blobs());
                        lemma_push_each(before, put, blob_sound());
                        if old(self)@.settled() {
                            lemma_push_each(before, put, blob_at_rest());
                        }
                    }
                }
            },
            None => {},
        }
        Ok(())
    }

    /// The contents of the attachment `name` of an item, with their size;
    /// nothing where the item declares no such file, the contents were not
    /// uploaded, or the author is not known. Fails with `Integrity` where
    /// the stored contents are not of the declared size.
    pub fn get_contents(&self, user: &UserID, signature: &Signature, name: &str) -> (r: Result<
        Option<FileStream>,
        Failure,
    >)
        requires
            self@.wf(),
        ensures
            match self@.attachment_contents(user@, signature@, name@) {
                None => r matches Ok(None),
                Some((attachment, blob)) => if blob.contents.len() == attachment.size {
                    r matches Ok(Some(stream)) && stream.contents() == blob.contents
                        && stream.spec_size() == attachment.size && stream.position() == 0
                } else {
                    r == Err::<Option<FileStream>, Failure>(Failure::Integrity)
                },
            },
    {
        if !self.user_known(user) {
            return Ok(None);
        }
        let wanted = name.to_owned();
        let test = |a: &AttachmentRow| -> (b: bool)
            ensures
                b == attachment_is(user@, signature@, name@)(a@),
            { a.user_id.same(user) && a.signature.same(signature) && a.name == wanted };
        let i = match find_row(
            &self.attachments,
            test,
            Ghost(attachment_is(user@, signature@, name@)),
        ) {
            Some(i) => i,
            None => {
                return Ok(None);
            },
        };
        let attachment = &self.attachments[i];
        assert(attachment_sound()(self@.attachments[i as int]));
        let j = match self.find_blob(attachment.hash.bytes()) {
            Some(j) => j,
            None => {
                return Ok(None);
            },
        };
        let blob = &self.blobs[j];
        match check_stored_size(blob.contents.len() as u64, attachment.size) {
            Ok(size) => Ok(Some(FileStream::new(copy_bytes(blob.contents.as_slice()), size))),
            Err(fault) => Err(fault),
        }
    }

    /// How many contents no attachment row names, and their bytes.
    fn measure_unused_contents(&self) -> (tally: (usize, u64))
        ensures
            tally.0 == self@.blobs.filter(unreferenced_in(self@.attachments)).len(),
            tally.1 == clipped(
                total(self@.blobs.filter(unreferenced_in(self@.attachments)), blob_size()),
            ),
    {
        let attachments = &self.attachments;
        let unused = |b: &Blob| -> (r: bool)
            ensures
                r == unreferenced_in(views(attachments@))(b@),
            {
                let names = |a: &AttachmentRow| -> (hit: bool)
                    ensures
                        hit == attachment_has_hash(b.key@)(a@),
                    { bytes_equal(a.hash.bytes(), b.key.as_slice()) };
                find_row(attachments, names, Ghost(attachment_has_hash(b.key@))).is_none()
            };
        let size = |b: &Blob| -> (n: u64)
            ensures
                n == blob_size()(b@),
            { b.contents.len() as u64 };
        tally_rows(
            &self.blobs,
            unused,
            size,
            Ghost(unreferenced_in(views(attachments@))),
            Ghost(blob_size()),
        )
    }

    /// How many items are of authors who are not known, and their bytes.
    fn measure_unknown_items(&self) -> (tally: (usize, u64))
        ensures
            tally.0 == self@.items.filter(self@.item_of_unknown()).len(),
            tally.1 == clipped(total(self@.items.filter(self@.item_of_unknown()), item_size())),
    {
        let unknown = |e: &StoredItem| -> (r: bool)
            ensures
                r == self@.item_of_unknown()(e@),
            { !self.user_known(&e.row.user) };
        let size = |e: &StoredItem| -> (n: u64)
            ensures
                n == item_size()(e@),
            { e.row.item_bytes.len() as u64 };
        tally_rows(&self.items, unknown, size, Ghost(self@.item_of_unknown()), Ghost(item_size()))
    }

    /// Deletes the contents that no attachment row names.
    fn delete_unused_contents(&mut self)
        ensures
            final(self)@ == old(self)@.without_unused_contents(),
    {
        let attachments = &self.attachments;
        let used = |b: &Blob| -> (r: bool)
            ensures
                r == referenced_in(views(attachments@))(b@),
            {
                let names = |a: &AttachmentRow| -> (hit: bool)
                    ensures
                        hit == attachment_has_hash(b.key@)(a@),
                    { bytes_equal(a.hash.bytes(), b.key.as_slice()) };
                find_row(attachments, names, Ghost(attachment_has_hash(b.key@))).is_some()
            };
        retain_rows(&mut self.blobs, used, Ghost(referenced_in(views(attachments@))));
    }

    /// Deletes the items of authors who are not known, and the rows that
    /// were made for those items.
    fn delete_unknown_items(&mut self)
        ensures
            final(self)@ == old(self)@.without_unknown_items(),
    {
        let ghost state = self@;
        let server_users = &self.server_users;
        let follows = &self.follows;
        let item_known = |e: &StoredItem| -> (r: bool)
            ensures
                r == known_among(views(server_users@), views(follows@), e@.row.user),
            { known_in(server_users, follows, &e.row.user) };
        retain_rows(&mut self.items, item_known, Ghost(state.item_of_known()));
        let attachment_known = |a: &AttachmentRow| -> (r: bool)
            ensures
                r == known_among(views(server_users@), views(follows@), a@.user_id),
            { known_in(server_users, follows, &a.user_id) };
        retain_rows(&mut self.attachments, attachment_known, Ghost(state.attachment_of_known()));
        let reply_known = |r: &ReplyRow| -> (b: bool)
            ensures
                b == known_among(views(server_users@), views(follows@), r@.from_user_id),
            { known_in(server_users, follows, &r.from_user_id) };
        retain_rows(&mut self.replies, reply_known, Ghost(state.reply_of_known()));
        let profile_known = |p: &ProfileRow| -> (b: bool)
            ensures
                b == known_among(views(server_users@), views(follows@), p@.user),
            { known_in(server_users, follows, &p.user) };
        retain_rows(&mut self.profiles, profile_known, Ghost(state.profile_of_known()));
        let follow_known = |f: &FollowRow| -> (b: bool)
            ensures
                b == known_among(views(server_users@), views(follows@), f@.source),
            { known_in(server_users, follows, &f.source) };
        let copy = |f: &FollowRow| -> (c: FollowRow)
            ensures
                c@ == itself::<FollowRowView>()(f@),
            { f.clone() };
        let kept = select_rows(
            follows,
            follow_known,
            copy,
            Ghost(state.follow_of_known()),
            Ghost(itself::<FollowRowView>()),
        );
        proof {
            lemma_map_itself(state.follows.filter(state.follow_of_known()));
        }
        self.follows = kept;
    }

    /// Reclaims storage: deletes first the contents that no attachment row
    /// names, if `opts.attachments`, then the items of authors who are not
    /// known, with the rows made for them, if `opts.items`. A dry run
    /// deletes nothing. Either way the report says what a run deletes.
    pub fn prune(&mut self, opts: PruneOpts) -> (report: PruneReport)
        requires
            old(self)@.wf(),
        ensures
            final(self)@.wf(),
            report == old(self)@.prune_report(opts),
            old(self)@.settled() ==> final(self)@.settled(),
            opts.dry_run ==> final(self)@ == old(self)@,
            !opts.dry_run ==> final(self)@ == old(self)@.pruned(opts),
    {
        let (blobs_gone, blob_bytes) = if opts.attachments {
            self.measure_unused_contents()
        } else {
            (0, 0)
        };
        let (items_gone, item_bytes) = if opts.items {
            self.measure_unknown_items()
        } else {
            (0, 0)
        };
        proof {
            reveal(Seq::filter);
            lemma_pruned_wf(self@, opts);
            if self@.settled() {
                lemma_pruned_settled(self@, opts);
            }
        }
        let report = PruneReport {
            items_deleted: items_gone as u64,
            attachments_deleted: blobs_gone as u64,
            bytes_reclaimed: blob_bytes.saturating_add(item_bytes),
        };
        if !opts.dry_run {
            if opts.attachments {
                self.delete_unused_contents();
            }
            if opts.items {
                self.delete_unknown_items();
            }
        }
        report
    }

    /// Takes an item that a client sends: `bytes`, signed `signature` by
    /// `user`, and `parsed`, the record that the bytes are, if they are one.
    ///
    /// The item is turned down if it has more than `MAX_ITEM_SIZE` bytes
    /// (`ItemTooLarge`), if the signature does not verify
    /// (`SignatureInvalid`), if the bytes are no record (`Unparseable`), if
    /// the server bounds the drift of clocks with `max_drift_ms` and the item
    /// was signed further than that from `received` (`Timestamp`), or if the
    /// author is neither a server user nor followed by one (`QuotaDenied`).
    /// It is then saved as `save_user_item` saves it, filed at the time
    /// signed inside it.
    pub fn put_item(
        &mut self,
        user: &UserID,
        signature: &Signature,
        bytes: Vec<u8>,
        parsed: Option<Item>,
        received: Timestamp,
        max_drift_ms: Option<u64>,
    ) -> (r: Result<(), Failure>)
        requires
            old(self)@.wf(),
        ensures
            final(self)@.wf(),
            old(self)@.settled() ==> final(self)@.settled(),
            match old(self)@.put_fault(
                user@,
                signature@,
                bytes@,
                opt_item(parsed),
                received.unix_utc_ms,
                max_drift_ms,
            ) {
                Some(fault) => r == Err::<(), Failure>(fault) && final(self)@ == old(self)@,
                None => r is Ok && final(self)@ == old(self)@.saved(
                    row_for(
                        user@,
                        signature@,
                        bytes@,
                        opt_item(parsed)->Some_0,
                        received.unix_utc_ms,
                    ),
                    opt_item(parsed)->Some_0,
                ),
            },
    {
        match check_item(user, signature, bytes.as_slice(), &parsed, received, max_drift_ms) {
            Err(fault) => {
                return Err(fault);
            },
            Ok(_) => {},
        }
        let item = match parsed {
            Some(item) => item,
            None => {
                return Err(Failure::InvalidInput(InvalidInput::Unparseable));
            },
        };
        match self.quota_check_item(user, bytes.as_slice(), &item) {
            Some(reason) => {
                return Err(Failure::QuotaDenied(reason));
            },
            None => {},
        }
        let row = ItemRow {
            user: user.clone(),
            signature: signature.clone(),
            timestamp: Timestamp { unix_utc_ms: item.timestamp_ms_utc },
            received,
            item_bytes: bytes,
        };
        self.save_user_item(&row, &item)
    }

    /// How much of the store `user` takes up.
    fn usage_of(&self, user: &UserID) -> (row: UsageRow)
        ensures
            row@ == self@.usage_of(user@),
    {
        let own_item = |e: &StoredItem| -> (b: bool)
            ensures
                b == item_by(user@)(e@),
            { e.row.user.same(user) };
        let item_len = |e: &StoredItem| -> (n: u64)
            ensures
                n == item_size()(e@),
            { e.row.item_bytes.len() as u64 };
        let (_, items_bytes) = tally_rows(
            &self.items,
            own_item,
            item_len,
            Ghost(item_by(user@)),
            Ghost(item_size()),
        );
        let own_file = |a: &AttachmentRow| -> (b: bool)
            ensures
                b == attachment_by(user@)(a@),
            { a.user_id.same(user) };
        let file_len = |a: &AttachmentRow| -> (n: u64)
            ensures
                n == attachment_size()(a@),
            {
                if a.size >= 0 {
                    a.size as u64
                } else {
                    0
                }
            };
        let (_, attachments_bytes) = tally_rows(
            &self.attachments,
            own_file,
            file_len,
            Ghost(attachment_by(user@)),
            Ghost(attachment_size()),
        );
        UsageRow {
            user_id: user.clone(),
            display_name: self.profile_name(user),
            items_bytes,
            attachments_bytes,
            total_bytes: items_bytes.saturating_add(attachments_bytes),
        }
    }

    /// How much of the store each author takes up, largest total first:
    /// one row for every author who has an item in the store.
    pub fn usage_by_user(&self) -> (rows: Vec<UsageRow>)
        ensures
            views(rows@) == self@.usage_by_user(),
    {
        let mut rows: Vec<UsageRow> = Vec::new();
        let mut i: usize = 0;
        let ghost items = self@.items;
        proof {
            assert(items.subrange(0, 0) =~= Seq::empty());
            assert(views(rows@) =~= self@.usage_among(items.subrange(0, 0)));
        }
        while i < self.items.len()
            invariant
                i <= self.items@.len(),
                items == self@.items,
                views(rows@) == self@.usage_among(items.subrange(0, i as int)),
            decreases self.items.len() - i,
        {
            let user = &self.items[i].row.user;
            let own_item = |e: &StoredItem| -> (b: bool)
                ensures
                    b == item_by(user@)(e@),
                { e.row.user.same(user) };
            let first = find_row(&self.items, own_item, Ghost(item_by(user@)));
            proof {
                let front = items.subrange(0, i as int);
                assert(items.subrange(0, i + 1).drop_last() =~= front);
                assert(items.subrange(0, i + 1).last() == items[i as int]);
                assert(items[i as int] == self.items@[i as int]@);
                lemma_any_exists(front, item_by(user@));
                match first {
                    Some(j) => {
                        if j < i {
                            assert(item_by(user@)(front[j as int]));
                        } else {
                            assert forall|k: int| 0 <= k < front.len() implies !item_by(user@)(
                                #[trigger] front[k],
                            ) by {
                                assert(front[k] == items[k]);
                            }
                        }
                    },
                    None => {
                        lemma_some_match(items, item_by(user@), i as int);
                    },
                }
            }
            let seen = match first {
                Some(j) => j < i,
                None => false,
            };
            if !seen {
                let row = self.usage_of(user);
                let total = row.total_bytes;
                let stays = |r: &UsageRow| -> (b: bool)
                    ensures
                        b == not_smaller_than(total)(r@),
                    { r.total_bytes >= total };
                insert_behind(&mut rows, row, stays, Ghost(not_smaller_than(total)));
            }
            i += 1;
        }
        assert(items.subrange(0, i as int) =~= items);
        rows
    }

    /// All the items, shown or not, in the order of their authors' keys and
    /// then of their signatures. With both `after_uid` and `after_sig`, only
    /// the items behind that place in the order; with one of them alone, all.
    pub fn all_items(&self, after_uid: &Option<UserID>, after_sig: &Option<Signature>) -> (rows:
        Vec<ItemRow>)
        ensures
            views(rows@) == self@.all_items(
                cursor_of(opt_user(*after_uid), opt_signature(*after_sig)),
            ),
    {
        let ghost cursor = cursor_of(opt_user(*after_uid), opt_signature(*after_sig));
        let ghost items = self@.items;
        let mut rows: Vec<ItemRow> = Vec::new();
        let mut i: usize = 0;
        proof {
            assert(items.subrange(0, 0) =~= Seq::empty());
            assert(views(rows@) =~= rows_by_key(items.subrange(0, 0), cursor));
        }
        while i < self.items.len()
            invariant
                i <= self.items@.len(),
                items == self@.items,
                cursor == cursor_of(opt_user(*after_uid), opt_signature(*after_sig)),
                views(rows@) == rows_by_key(items.subrange(0, i as int), cursor),
            decreases self.items.len() - i,
        {
            let row = &self.items[i].row;
            proof {
                assert(items.subrange(0, i + 1).drop_last() =~= items.subrange(0, i as int));
                assert(items.subrange(0, i + 1).last() == items[i as int]);
                assert(items[i as int] == self.items@[i as int]@);
            }
            let behind = match (after_uid, after_sig) {
                (Some(user), Some(signature)) => key_before(user, signature, &row.user, &row.signature),
                _ => true,
            };
            if behind {
                let stays = |r: &ItemRow| -> (b: bool)
                    ensures
                        b == row_sorts_before(row@)(r@),
                    { key_before(&r.user, &r.signature, &row.user, &row.signature) };
                insert_behind(&mut rows, row.clone(), stays, Ghost(row_sorts_before(row@)));
            }
            i += 1;
        }
        assert(items.subrange(0, i as int) =~= items);
        rows
    }

    /// Whether some server user follows `user`.
    fn followed_by_server_user(&self, user: &UserID) -> (found: bool)
        ensures
            found == self@.followed_by_server_user(user@),
    {
        let server_users = &self.server_users;
        let trusted = |f: &FollowRow| -> (b: bool)
            ensures
                b == trusted_follow_of(views(server_users@), user@)(f@),
            {
                if bytes_equal(f.followed.as_slice(), user.bytes()) {
                    let source = &f.source;
                    let is_source = |s: &ServerUser| -> (b: bool)
                        ensures
                            b == server_user_is(source@)(s@),
                        { s.user.same(source) };
                    find_row(server_users, is_source, Ghost(server_user_is(source@))).is_some()
                } else {
                    false
                }
            };
        find_row(
            &self.follows,
            trusted,
            Ghost(trusted_follow_of(views(server_users@), user@)),
        ).is_some()
    }

    /// Whether the administrator has added `user`.
    fn is_server_user(&self, user: &UserID) -> (found: bool)
        ensures
            found == self@.is_server_user(user@),
    {
        let test = |s: &ServerUser| -> (b: bool)
            ensures
                b == server_user_is(user@)(s@),
            { s.user.same(user) };
        find_row(&self.server_users, test, Ghost(server_user_is(user@))).is_some()
    }

    /// Whether `user` is a server user whose items appear on the home page.
    fn is_homepage_user(&self, user: &UserID) -> (found: bool)
        ensures
            found == self@.on_homepage(user@),
    {
        let test = |s: &ServerUser| -> (b: bool)
            ensures
                b == homepage_user_is(user@)(s@),
            { s.user.same(user) && s.on_homepage };
        find_row(&self.server_users, test, Ghost(homepage_user_is(user@))).is_some()
    }

    /// Whether the latest profile of `source` follows `followed`.
    fn follows_user(&self, source: &UserID, followed: &UserID) -> (found: bool)
        ensures
            found == self@.follows_user(source@, followed@),
    {
        let test = |f: &FollowRow| -> (b: bool)
            ensures
                b == follow_is(source@, followed@)(f@),
            { f.source.same(source) && bytes_equal(f.followed.as_slice(), followed.bytes()) };
        find_row(&self.follows, test, Ghost(follow_is(source@, followed@))).is_some()
    }

    /// The name that `user` goes by in their latest profile.
    fn profile_name(&self, user: &UserID) -> (name: Option<String>)
        ensures
            opt_text(name) == self@.profile_name(user@),
    {
        let test = |p: &ProfileRow| -> (b: bool)
            ensures
                b == profile_is(user@)(p@),
            { p.user.same(user) };
        match find_row(&self.profiles, test, Ghost(profile_is(user@))) {
            Some(i) => Some(self.profiles[i].display_name.clone()),
            None => None,
        }
    }

    /// The name that `source` gives `followed`.
    fn follow_name(&self, source: &UserID, followed: &UserID) -> (name: Option<String>)
        ensures
            opt_text(name) == self@.follow_name(source@, followed@),
    {
        let test = |f: &FollowRow| -> (b: bool)
            ensures
                b == follow_is(source@, followed@)(f@),
            { f.source.same(source) && bytes_equal(f.followed.as_slice(), followed.bytes()) };
        match find_row(&self.follows, test, Ghost(follow_is(source@, followed@))) {
            Some(i) => Some(self.follows[i].display_name.clone()),
            None => None,
        }
    }

    /// Whether one item answers another.
    fn is_reply(
        &self,
        user: &UserID,
        signature: &Signature,
        to_user: &UserID,
        to_signature: &Signature,
    ) -> (found: bool)
        ensures
            found == self@.is_reply(user@, signature@, to_user@, to_signature@),
    {
        let test = |r: &ReplyRow| -> (b: bool)
            ensures
                b == reply_is(user@, signature@, to_user@, to_signature@)(r@),
            {
                r.from_user_id.same(user) && r.from_signature.same(signature) && r.to_user_id.same(
                    to_user,
                ) && r.to_signature.same(to_signature)
            };
        find_row(
            &self.replies,
            test,
            Ghost(reply_is(user@, signature@, to_user@, to_signature@)),
        ).is_some()
    }

    /// Whether the item is stored, shown or not.
    pub fn user_item_exists(&self, user: &UserID, signature: &Signature) -> (found: bool)
        ensures
            found == self@.has_item(user@, signature@),
    {
        let test = |e: &StoredItem| -> (b: bool)
            ensures
                b == item_is(user@, signature@)(e@),
            { e.row.user.same(user) && e.row.signature.same(signature) };
        find_row(&self.items, test, Ghost(item_is(user@, signature@))).is_some()
    }

    /// The item signed `signature` by `user`. An item whose author is not
    /// known is not found.
    pub fn user_item(&self, user: &UserID, signature: &Signature) -> (found: Option<ItemRow>)
        ensures
            match found {
                Some(row) => self@.user_item(user@, signature@) == Some(row@),
                None => self@.user_item(user@, signature@) is None,
            },
    {
        if !self.user_known(user) {
            return None;
        }
        let test = |e: &StoredItem| -> (b: bool)
            ensures
                b == item_is(user@, signature@)(e@),
            { e.row.user.same(user) && e.row.signature.same(signature) };
        match find_row(&self.items, test, Ghost(item_is(user@, signature@))) {
            Some(i) => Some(self.items[i].row.clone()),
            None => None,
        }
    }

    /// The latest profile of `user`; none where `user` has sent no profile
    /// or is not known.
    pub fn user_profile(&self, user: &UserID) -> (found: Option<ItemRow>)
        ensures
            match found {
                Some(row) => self@.user_profile(user@) == Some(row@),
                None => self@.user_profile(user@) is None,
            },
    {
        let test = |p: &ProfileRow| -> (b: bool)
            ensures
                b == profile_is(user@)(p@),
            { p.user.same(user) };
        match find_row(&self.profiles, test, Ghost(profile_is(user@))) {
            Some(i) => self.user_item(&self.profiles[i].user, &self.profiles[i].signature),
            None => None,
        }
    }

    /// The home page: the items older than `before` of the server users
    /// that are shown on it, newest first, each with its author's name.
    pub fn homepage_items(&self, before: Timestamp) -> (rows: Vec<ItemDisplayRow>)
        ensures
            views(rows@) == self@.homepage_items(before.unix_utc_ms),
    {
        let test = |e: &StoredItem| -> (b: bool)
            ensures
                b == self@.on_homepage_before(before.unix_utc_ms)(e@),
            { e.row.timestamp.unix_utc_ms < before.unix_utc_ms && self.is_homepage_user(&e.row.user) };
        let make = |e: &StoredItem| -> (d: ItemDisplayRow)
            ensures
                d@ == self@.with_profile_name()(e@),
            { ItemDisplayRow { item: e.row.clone(), display_name: self.profile_name(&e.row.user) } };
        select_rows(
            &self.items,
            test,
            make,
            Ghost(self@.on_homepage_before(before.unix_utc_ms)),
            Ghost(self@.with_profile_name()),
        )
    }

    /// The items of `user` older than `before`, newest first; none where
    /// `user` is not known.
    pub fn user_items(&self, user: &UserID, before: Timestamp) -> (rows: Vec<ItemRow>)
        ensures
            views(rows@) == self@.user_items(user@, before.unix_utc_ms),
    {
        let test = |e: &StoredItem| -> (b: bool)
            ensures
                b == self@.by_user_before(user@, before.unix_utc_ms)(e@),
            {
                e.row.timestamp.unix_utc_ms < before.unix_utc_ms && e.row.user.same(user)
                    && self.user_known(&e.row.user)
            };
        let make = |e: &StoredItem| -> (row: ItemRow)
            ensures
                row@ == row_of()(e@),
            { e.row.clone() };
        select_rows(
            &self.items,
            test,
            make,
            Ghost(self@.by_user_before(user@, before.unix_utc_ms)),
            Ghost(row_of()),
        )
    }

    /// The answers of known users to the item signed `signature` by `user`,
    /// older than `before`, newest first.
    pub fn reply_items(&self, user: &UserID, signature: &Signature, before: Timestamp) -> (rows:
        Vec<ItemRow>)
        ensures
            views(rows@) == self@.reply_items(user@, signature@, before.unix_utc_ms),
    {
        let test = |e: &StoredItem| -> (b: bool)
            ensures
                b == self@.reply_before(user@, signature@, before.unix_utc_ms)(e@),
            {
                e.row.timestamp.unix_utc_ms < before.unix_utc_ms && self.is_reply(
                    &e.row.user,
                    &e.row.signature,
                    user,
                    signature,
                ) && self.user_known(&e.row.user)
            };
        let make = |e: &StoredItem| -> (row: ItemRow)
            ensures
                row@ == row_of()(e@),
            { e.row.clone() };
        select_rows(
            &self.items,
            test,
            make,
            Ghost(self@.reply_before(user@, signature@, before.unix_utc_ms)),
            Ghost(row_of()),
        )
    }

    /// The feed of `user`: the items older than `before` of `user` and of
    /// those whom `user` follows, as far as their authors are known, newest
    /// first, each with the name under which `user` sees its author.
    pub fn user_feed_items(&self, user: &UserID, before: Timestamp) -> (rows: Vec<ItemDisplayRow>)
        ensures
            views(rows@) == self@.user_feed_items(user@, before.unix_utc_ms),
    {
        let test = |e: &StoredItem| -> (b: bool)
            ensures
                b == self@.in_feed_before(user@, before.unix_utc_ms)(e@),
            {
                e.row.timestamp.unix_utc_ms < before.unix_utc_ms && (e.row.user.same(user)
                    || self.follows_user(user, &e.row.user)) && self.user_known(&e.row.user)
            };
        let make = |e: &StoredItem| -> (d: ItemDisplayRow)
            ensures
                d@ == self@.with_feed_name(user@)(e@),
            {
                ItemDisplayRow {
                    item: e.row.clone(),
                    display_name: display_name_for(
                        self.follow_name(user, &e.row.user),
                        self.profile_name(&e.row.user),
                    ),
                }
            };
        select_rows(
            &self.items,
            test,
            make,
            Ghost(self@.in_feed_before(user@, before.unix_utc_ms)),
            Ghost(self@.with_feed_name(user@)),
        )
    }

    /// The server users: first those that are not shown on the home page,
    /// then those that are, each kind in the order of the keys.
    pub fn server_users(&self) -> (rows: Vec<ServerUser>)
        ensures
            views(rows@) == self@.server_users,
    {
        let mut rows: Vec<ServerUser> = Vec::new();
        let mut i: usize = 0;
        while i < self.server_users.len()
            invariant
                i <= self.server_users@.len(),
                views(rows@) == views(self.server_users@).subrange(0, i as int),
            decreases self.server_users.len() - i,
        {
            let ghost so_far = views(rows@);
            let copy = self.server_users[i].clone();
            rows.push(copy);
            assert(views(rows@) =~= so_far.push(copy@));
            assert(views(rows@) =~= views(self.server_users@).subrange(0, i + 1));
            i += 1;
        }
        assert(views(rows@) =~= views(self.server_users@));
        rows
    }

    /// Whether `user` may store an item: a server user may, and so may
    /// anyone whom a server user follows. The item itself does not count yet.
    pub fn quota_check_item(&self, user: &UserID, bytes: &[u8], item: &Item) -> (denied: Option<
        QuotaDenyReason,
    >)
        ensures
            denied == self@.quota_check(user@),
    {
        quota_check(self.is_server_user(user), self.followed_by_server_user(user))
    }

    /// What is known of the attachment `name` of an item; nothing where the
    /// item declares no such file or its author is not known.
    pub fn get_attachment_meta(&self, user: &UserID, signature: &Signature, name: &str) -> (meta:
        Option<FileMeta>)
        requires
            self@.wf(),
        ensures
            match meta {
                Some(m) => self@.attachment_meta(user@, signature@, name@) == Some(
                    file_meta_view(m),
                ),
                None => self@.attachment_meta(user@, signature@, name@) is None,
            },
    {
        if !self.user_known(user) {
            return None;
        }
        let wanted = name.to_owned();
        let test = |a: &AttachmentRow| -> (b: bool)
            ensures
                b == attachment_is(user@, signature@, name@)(a@),
            { a.user_id.same(user) && a.signature.same(signature) && a.name == wanted };
        match find_row(&self.attachments, test, Ghost(attachment_is(user@, signature@, name@))) {
            Some(i) => {
                let row = &self.attachments[i];
                assert(attachment_sound()(self@.attachments[i as int]));
                let hash = &row.hash;
                let stored = |b: &Blob| -> (hit: bool)
                    ensures
                        hit == blob_is(hash@)(b@),
                    { bytes_equal(b.key.as_slice(), hash.bytes()) };
                let exists = find_row(&self.blobs, stored, Ghost(blob_is(hash@))).is_some();
                Some(
                    FileMeta {
                        exists,
                        hash: row.hash.clone(),
                        size: row.size as u64,
                        quota_exceeded: false,
                    },
                )
            },
            None => None,
        }
    }

    /// Whether the server shows what `user` wrote.
    pub fn user_known(&self, user: &UserID) -> (known: bool)
        ensures
            known == self@.known(user@),
    {
        known_in(&self.server_users, &self.follows, user)
    }
}

} // verus!
