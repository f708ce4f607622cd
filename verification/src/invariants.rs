//! The rules that bind the tables hold after every change.

use vstd::prelude::*;

use crate::bytes::{lemma_bytes_less_total, lemma_bytes_less_transitive};
use crate::ingest::{attachment_row_of, attachment_rows, file_fault, files_fault};
use crate::model::{FileView, FollowView, ItemRowView, ItemView, PruneOpts, ServerUserView};
use crate::rows::{AttachmentRowView, FollowRowView, ProfileRowView, StoredItemView};
use crate::seqs::{
    any, each, first_match, lead, lemma_any_exists, lemma_filter_each, lemma_filter_keeps,
    lemma_filter_loss, lemma_filter_pairwise, lemma_filter_places, lemma_first_match_each,
    lemma_insert_finds, lemma_insert_keeps, lemma_insert_pairwise, lemma_lead, lemma_put_each,
    lemma_put_finds, lemma_put_keeps, lemma_put_pairwise, pairwise,
};
use crate::state::{
    attachment_sound, blob_at_rest, blob_is, blob_sound, contents_fault, distinct_attachments,
    distinct_blobs, distinct_follows, distinct_profiles, distinct_server_users, follow_row_of,
    indexed_time, insert_by_time, item_is, item_sound, items_in_order, not_from, not_older_than,
    other_attachment, other_follow, other_profile, other_server_user, place_by_time, profile_bound,
    profile_is, profile_points, put_attachments, put_follows, referenced_in, server_user_before,
    server_user_is, server_users_in_order, sorts_before, Tables, TEMP_KEY_BYTES,
};

verus! {

/// The place by time is in the table, behind items that are not older and
/// before an item that is.
pub proof fn lemma_place_by_time(items: Seq<StoredItemView>, timestamp: i64)
    ensures
        0 <= place_by_time(items, timestamp) <= items.len(),
        forall|k: int|
            0 <= k < place_by_time(items, timestamp) ==> (#[trigger] items[k]).row.timestamp
                >= timestamp,
        place_by_time(items, timestamp) < items.len() ==> items[place_by_time(
            items,
            timestamp,
        )].row.timestamp < timestamp,
{
    lemma_lead(items, not_older_than(timestamp));
    assert forall|k: int| 0 <= k < place_by_time(items, timestamp) implies (
    #[trigger] items[k]).row.timestamp >= timestamp by {
        assert(not_older_than(timestamp)(items[k]));
    }
}

/// A new item goes into the table without breaking its order.
pub proof fn lemma_insert_in_order(items: Seq<StoredItemView>, new: StoredItemView)
    requires
        pairwise(items, items_in_order()),
        !any(items, item_is(new.row.user, new.row.signature)),
    ensures
        pairwise(insert_by_time(items, new), items_in_order()),
{
    lemma_place_by_time(items, new.row.timestamp);
    lemma_any_exists(items, item_is(new.row.user, new.row.signature));
    let place = place_by_time(items, new.row.timestamp);
    let after = insert_by_time(items, new);
    assert forall|i: int, j: int| 0 <= i < j < after.len() implies items_in_order()(
        #[trigger] after[i],
        #[trigger] after[j],
    ) by {
        if j < place {
            assert(items_in_order()(items[i], items[j]));
        } else if j == place {
            assert(after[i] == items[i]);
            assert(!item_is(new.row.user, new.row.signature)(items[i]));
        } else if i < place {
            assert(after[j] == items[j - 1]);
            assert(items_in_order()(items[i], items[j - 1]));
        } else if i == place {
            assert(after[j] == items[j - 1]);
            assert(!item_is(new.row.user, new.row.signature)(items[j - 1]));
            if place < j - 1 {
                assert(items_in_order()(items[place], items[j - 1]));
            }
        } else {
            assert(after[i] == items[i - 1]);
            assert(after[j] == items[j - 1]);
            assert(items_in_order()(items[i - 1], items[j - 1]));
        }
    }
}

/// A new item that is sound goes into a table of sound items.
pub proof fn lemma_insert_sound(items: Seq<StoredItemView>, new: StoredItemView)
    requires
        each(items, item_sound()),
        item_sound()(new),
    ensures
        each(insert_by_time(items, new), item_sound()),
{
    lemma_place_by_time(items, new.row.timestamp);
    let place = place_by_time(items, new.row.timestamp);
    let after = insert_by_time(items, new);
    assert forall|i: int| 0 <= i < after.len() implies item_sound()(#[trigger] after[i]) by {
        if i < place {
            assert(after[i] == items[i]);
        } else if i > place {
            assert(after[i] == items[i - 1]);
        }
    }
}

/// The follows of a profile go into the table without a pair occurring twice.
pub proof fn lemma_put_follows_distinct(
    table: Seq<FollowRowView>,
    source: Seq<u8>,
    entries: Seq<FollowView>,
)
    requires
        pairwise(table, distinct_follows()),
    ensures
        pairwise(put_follows(table, source, entries), distinct_follows()),
    decreases entries.len(),
{
    if entries.len() > 0 {
        lemma_put_follows_distinct(table, source, entries.drop_last());
        let row = follow_row_of(source, entries.last());
        lemma_put_pairwise(
            put_follows(table, source, entries.drop_last()),
            other_follow(row.source, row.followed),
            row,
            distinct_follows(),
        );
    }
}

/// Where no file is faulty, each file is without fault.
pub proof fn lemma_no_fault(files: Seq<FileView>, i: int)
    requires
        files_fault(files) is None,
        0 <= i < files.len(),
    ensures
        file_fault(files[i]) is None,
    decreases files.len(),
{
    if i < files.len() - 1 {
        assert(files.drop_last()[i] == files[i]);
        lemma_no_fault(files.drop_last(), i);
    }
}

/// The attachment rows that an item asks for are sound.
pub proof fn lemma_attachment_rows_sound(row: ItemRowView, item: ItemView)
    requires
        attachment_rows(row, item) is Ok,
    ensures
        each(attachment_rows(row, item)->Ok_0, attachment_sound()),
{
    let files = item.attachments();
    let rows = attachment_rows(row, item)->Ok_0;
    assert forall|i: int| 0 <= i < rows.len() implies attachment_sound()(#[trigger] rows[i]) by {
        lemma_no_fault(files, i);
        assert(rows[i] == attachment_row_of(row)(files[i]));
    }
}

/// Sound attachment rows go into the table without a name occurring twice
/// for one item, and leave a table of sound rows.
pub proof fn lemma_put_attachments(table: Seq<AttachmentRowView>, rows: Seq<AttachmentRowView>)
    requires
        pairwise(table, distinct_attachments()),
        each(table, attachment_sound()),
        each(rows, attachment_sound()),
    ensures
        pairwise(put_attachments(table, rows), distinct_attachments()),
        each(put_attachments(table, rows), attachment_sound()),
    decreases rows.len(),
{
    if rows.len() > 0 {
        let front = rows.drop_last();
        assert forall|i: int| 0 <= i < front.len() implies attachment_sound()(
            #[trigger] front[i],
        ) by {
            assert(front[i] == rows[i]);
        }
        lemma_put_attachments(table, front);
        let row = rows.last();
        let before = put_attachments(table, front);
        lemma_put_pairwise(
            before,
            other_attachment(row.user_id, row.signature, row.name),
            row,
            distinct_attachments(),
        );
        lemma_put_each(
            before,
            other_attachment(row.user_id, row.signature, row.name),
            row,
            attachment_sound(),
        );
    }
}

/// A new item leaves the search for the item of a profile row as it was.
proof fn lemma_row_still_points(items: Seq<StoredItemView>, new: StoredItemView, p: ProfileRowView)
    requires
        profile_points(items)(p),
        !any(items, item_is(new.row.user, new.row.signature)),
    ensures
        first_match(insert_by_time(items, new), item_is(p.user, p.signature)) == first_match(
            items,
            item_is(p.user, p.signature),
        ),
{
    lemma_place_by_time(items, new.row.timestamp);
    lemma_insert_keeps(
        items,
        place_by_time(items, new.row.timestamp),
        new,
        item_is(p.user, p.signature),
    );
}

/// A new item leaves the indexed time of a user as it was, unless the
/// user's profile row is changed.
proof fn lemma_time_stays(tables: Tables, new: StoredItemView, user: Seq<u8>)
    requires
        tables.profiles_indexed(),
        !any(tables.items, item_is(new.row.user, new.row.signature)),
    ensures
        indexed_time(insert_by_time(tables.items, new), tables.profiles, user) == indexed_time(
            tables.items,
            tables.profiles,
            user,
        ),
{
    if first_match(tables.profiles, profile_is(user)) is Some {
        lemma_first_match_each(tables.profiles, profile_is(user), profile_points(tables.items));
        lemma_row_still_points(
            tables.items,
            new,
            first_match(tables.profiles, profile_is(user))->Some_0,
        );
    }
}

/// Saving an item keeps the profile table pointing at the latest profiles.
pub proof fn lemma_saved_profiles_indexed(tables: Tables, row: ItemRowView, item: ItemView)
    requires
        tables.wf(),
        tables.save_fault(row, item) is None,
    ensures
        tables.saved(row, item).profiles_indexed(),
{
    let is_profile = item.item_type is Profile;
    let new = StoredItemView { row, is_profile };
    let after = tables.saved(row, item);
    let indexed = is_profile && tables.supersedes(row.user, row.timestamp);
    let place = place_by_time(tables.items, row.timestamp);
    let put = ProfileRowView {
        user: row.user,
        signature: row.signature,
        display_name: item.display_name(),
    };
    lemma_place_by_time(tables.items, row.timestamp);
    assert forall|i: int| 0 <= i < after.profiles.len() implies profile_points(after.items)(
        #[trigger] after.profiles[i],
    ) by {
        let p = after.profiles[i];
        if indexed {
            let places = lemma_filter_places(tables.profiles, other_profile(row.user));
            let kept = tables.profiles.filter(other_profile(row.user));
            if i < kept.len() {
                assert(p == tables.profiles[places[i]]);
                lemma_row_still_points(tables.items, new, p);
            } else {
                lemma_insert_finds(tables.items, place, new, item_is(row.user, row.signature));
            }
        } else {
            lemma_row_still_points(tables.items, new, p);
        }
    }
    assert forall|i: int| 0 <= i < after.items.len() implies profile_bound(
        after.items,
        after.profiles,
    )(#[trigger] after.items[i]) by {
        let e = after.items[i];
        if i < place {
            assert(e == tables.items[i]);
        } else if i > place {
            assert(e == tables.items[i - 1]);
        }
        if e.is_profile {
            if indexed && e.row.user == row.user {
                lemma_put_finds(tables.profiles, other_profile(row.user), put, profile_is(row.user));
                lemma_insert_finds(tables.items, place, new, item_is(row.user, row.signature));
                assert(indexed_time(after.items, after.profiles, row.user) == Some(row.timestamp));
            } else {
                if indexed {
                    lemma_put_keeps(
                        tables.profiles,
                        other_profile(row.user),
                        put,
                        profile_is(e.row.user),
                    );
                }
                lemma_time_stays(tables, new, e.row.user);
            }
        }
    }
}

/// Saving an item keeps the rules that bind the tables.
pub proof fn lemma_saved_wf(tables: Tables, row: ItemRowView, item: ItemView)
    requires
        tables.wf(),
        item_sound()(StoredItemView { row, is_profile: item.item_type is Profile }),
        tables.save_fault(row, item) is None,
    ensures
        tables.saved(row, item).wf(),
{
    let new = StoredItemView { row, is_profile: item.item_type is Profile };
    let after = tables.saved(row, item);
    lemma_insert_in_order(tables.items, new);
    lemma_insert_sound(tables.items, new);
    if item.item_type is Profile && tables.supersedes(row.user, row.timestamp) {
        lemma_filter_pairwise(tables.follows, not_from(row.user), distinct_follows());
        lemma_put_follows_distinct(tables.follows.filter(not_from(row.user)), row.user, item.follows());
        lemma_put_pairwise(
            tables.profiles,
            other_profile(row.user),
            after.profiles.last(),
            distinct_profiles(),
        );
    }
    lemma_attachment_rows_sound(row, item);
    lemma_put_attachments(tables.attachments, attachment_rows(row, item)->Ok_0);
    lemma_saved_profiles_indexed(tables, row, item);
}

/// A new server user goes into the table at its place without breaking the
/// order, and without a user occurring twice.
pub proof fn lemma_with_server_user_wf(tables: Tables, new: ServerUserView)
    requires
        tables.wf(),
        !tables.is_server_user(new.user),
    ensures
        tables.with_server_user(new).wf(),
{
    let table = tables.server_users;
    lemma_lead(table, sorts_before(new));
    lemma_any_exists(table, server_user_is(new.user));
    let place = lead(table, sorts_before(new));
    assert forall|k: int| 0 <= k < table.len() implies (#[trigger] table[k]).user != new.user by {
        assert(!server_user_is(new.user)(table[k]));
    }
    assert forall|k: int| place <= k < table.len() implies server_user_before(
        new,
        #[trigger] table[k],
    ) by {
        assert(!sorts_before(new)(table[place]));
        lemma_bytes_less_total(table[place].user, new.user);
        assert(server_user_before(new, table[place]));
        if k > place {
            assert(server_users_in_order()(table[place], table[k]));
            if new.on_homepage == table[place].on_homepage && table[place].on_homepage
                == table[k].on_homepage {
                lemma_bytes_less_transitive(
                    new.user,
                    table[place].user,
                    table[k].user,
                );
            }
        }
    }
    assert forall|k: int| 0 <= k < place implies server_user_before(#[trigger] table[k], new) by {
        assert(sorts_before(new)(table[k]));
    }
    lemma_insert_pairwise(table, place, new, server_users_in_order());
    lemma_insert_pairwise(table, place, new, distinct_server_users());
}

/// Taking a server user away keeps the rules that bind the tables.
pub proof fn lemma_without_server_user_wf(tables: Tables, user: Seq<u8>)
    requires
        tables.wf(),
    ensures
        tables.without_server_user(user).wf(),
{
    lemma_filter_pairwise(tables.server_users, other_server_user(user), distinct_server_users());
    lemma_filter_pairwise(tables.server_users, other_server_user(user), server_users_in_order());
}

/// Taking a server user away takes a row away exactly if there was one.
pub proof fn lemma_one_server_user(server_users: Seq<ServerUserView>, user: Seq<u8>)
    ensures
        server_users.filter(other_server_user(user)).len() < server_users.len() <==> any(
            server_users,
            server_user_is(user),
        ),
{
    lemma_filter_loss(server_users, other_server_user(user));
    lemma_any_exists(server_users, server_user_is(user));
    if any(server_users, server_user_is(user)) {
        let k = choose|k: int|
            0 <= k < server_users.len() && server_user_is(user)(#[trigger] server_users[k]);
        assert(!other_server_user(user)(server_users[k]));
    } else {
        assert forall|k: int| 0 <= k < server_users.len() implies other_server_user(user)(
            #[trigger] server_users[k],
        ) by {
            assert(!server_user_is(user)(server_users[k]));
        }
    }
}

/// Deleting unused contents keeps the rules that bind the tables.
pub proof fn lemma_without_unused_contents_wf(tables: Tables)
    requires
        tables.wf(),
    ensures
        tables.without_unused_contents().wf(),
{
    lemma_filter_pairwise(tables.blobs, referenced_in(tables.attachments), distinct_blobs());
    lemma_filter_each(tables.blobs, referenced_in(tables.attachments), blob_sound());
}

/// Deleting the items of unknown authors keeps the profile table pointing
/// at the latest profiles.
pub proof fn lemma_without_unknown_items_indexed(tables: Tables)
    requires
        tables.wf(),
    ensures
        tables.without_unknown_items().profiles_indexed(),
{
    let after = tables.without_unknown_items();
    let item_places = lemma_filter_places(tables.items, tables.item_of_known());
    let profile_places = lemma_filter_places(tables.profiles, tables.profile_of_known());
    assert forall|i: int| 0 <= i < after.profiles.len() implies profile_points(after.items)(
        #[trigger] after.profiles[i],
    ) by {
        let p = after.profiles[i];
        assert(p == tables.profiles[profile_places[i]]);
        assert(profile_points(tables.items)(p));
        lemma_filter_keeps(tables.items, tables.item_of_known(), item_is(p.user, p.signature));
    }
    assert forall|i: int| 0 <= i < after.items.len() implies profile_bound(
        after.items,
        after.profiles,
    )(#[trigger] after.items[i]) by {
        let e = after.items[i];
        assert(e == tables.items[item_places[i]]);
        assert(profile_bound(tables.items, tables.profiles)(e));
        if e.is_profile {
            lemma_filter_keeps(tables.profiles, tables.profile_of_known(), profile_is(e.row.user));
            let p = first_match(tables.profiles, profile_is(e.row.user))->Some_0;
            lemma_first_match_each(tables.profiles, profile_is(e.row.user), profile_points(tables.items));
            lemma_filter_keeps(tables.items, tables.item_of_known(), item_is(p.user, p.signature));
        }
    }
}

/// Deleting the items of unknown authors keeps the rules that bind the tables.
pub proof fn lemma_without_unknown_items_wf(tables: Tables)
    requires
        tables.wf(),
    ensures
        tables.without_unknown_items().wf(),
{
    lemma_filter_pairwise(tables.items, tables.item_of_known(), items_in_order());
    lemma_filter_each(tables.items, tables.item_of_known(), item_sound());
    lemma_filter_pairwise(tables.follows, tables.follow_of_known(), distinct_follows());
    lemma_filter_pairwise(tables.profiles, tables.profile_of_known(), distinct_profiles());
    lemma_filter_pairwise(tables.attachments, tables.attachment_of_known(), distinct_attachments());
    lemma_filter_each(tables.attachments, tables.attachment_of_known(), attachment_sound());
    lemma_without_unknown_items_indexed(tables);
}

/// A pruning run keeps the rules that bind the tables.
pub proof fn lemma_pruned_wf(tables: Tables, opts: PruneOpts)
    requires
        tables.wf(),
    ensures
        tables.pruned(opts).wf(),
{
    lemma_without_unused_contents_wf(tables);
    if opts.attachments {
        lemma_without_unknown_items_wf(tables.without_unused_contents());
    } else {
        lemma_without_unknown_items_wf(tables);
    }
}

/// Where no upload is under way, no contents lie under the key of one.
pub proof fn lemma_settled_has_no_upload(tables: Tables, temp_key: Seq<u8>)
    requires
        tables.settled(),
        temp_key.len() == TEMP_KEY_BYTES,
    ensures
        !any(tables.blobs, blob_is(temp_key)),
        forall|size: u64, hash: Seq<u8>, contents: Seq<u8>|
            #[trigger] tables.upload_fault(temp_key, size, hash, contents) == contents_fault(
                size,
                hash,
                contents,
            ),
{
    lemma_any_exists(tables.blobs, blob_is(temp_key));
    if any(tables.blobs, blob_is(temp_key)) {
        let k = choose|k: int|
            0 <= k < tables.blobs.len() && blob_is(temp_key)(#[trigger] tables.blobs[k]);
        assert(blob_at_rest()(tables.blobs[k]));
    }
}

/// A pruning run starts no upload.
pub proof fn lemma_pruned_settled(tables: Tables, opts: PruneOpts)
    requires
        tables.settled(),
    ensures
        tables.pruned(opts).settled(),
{
    lemma_filter_each(tables.blobs, referenced_in(tables.attachments), blob_at_rest());
}

} // verus!
