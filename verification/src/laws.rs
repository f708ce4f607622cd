//! What holds of every store that keeps its rules, and of what the
//! operations do to one.

use vstd::prelude::*;

use crate::bytes::{
    bytes_less, lemma_bytes_less_irreflexive, lemma_bytes_less_total, lemma_bytes_less_transitive,
};
use crate::hash::{HASH_BYTES, sha512_digest};
use crate::ingest::{item_size_ok, MAX_ITEM_SIZE};
use crate::invariants::{lemma_place_by_time, lemma_pruned_settled, lemma_settled_has_no_upload};
use crate::keys::ed25519_accepts;
use crate::model::{FollowView, ItemRowView, ItemView, PruneOpts, ServerUserView, UsageRowView};
use crate::pagination::{page_limit, page_step, Pagination, requested_span};
use crate::rows::{BlobView, ProfileRowView, StoredItemView};
use crate::seqs::{
    any, each, first_match, lead, lemma_any_exists, lemma_filter_keeps, lemma_filter_pairwise,
    lemma_filter_passes, lemma_filter_places, lemma_first_match_at, lemma_first_match_found,
    lemma_insert_finds, lemma_insert_pairwise, lemma_lead, lemma_push_each, lemma_push_pairwise,
    lemma_put_finds, lemma_put_keeps, lemma_some_match, pairwise,
};
use crate::state::{
    attachment_has_hash, attachment_is, attachment_sound, behind_cursor, blob_at_rest, blob_is,
    blob_sound, contents_fault, distinct_blobs, distinct_profiles, follow_row_of, homepage_user_is,
    item_by, item_is, item_sound, items_in_order, key_less, not_from, not_smaller_than,
    other_follow, other_profile, place_by_time, profile_bound, profile_is, profile_points,
    put_follows, referenced_in, row_for, row_sorts_before, rows_by_key, server_user_is, Tables,
    TEMP_KEY_BYTES, trusted_follow_of,
};
use crate::text::{blank, is_white_space, lemma_trimmed_end, lemma_trimmed_start, trimmed_start};
use crate::time::{TimeSpan, Timestamp};

verus! {

/// Rows in the order newest first.
pub open spec fn newest_first(rows: Seq<ItemRowView>) -> bool {
    forall|i: int, j: int|
        0 <= i < j < rows.len() ==> (#[trigger] rows[i]).timestamp >= (#[trigger] rows[j]).timestamp
}

/// The signature of every stored item verifies under its author's key over
/// the item's bytes, and no stored item is larger than the server takes.
pub proof fn law_stored_items_verify(tables: Tables, i: int)
    requires
        tables.wf(),
        0 <= i < tables.items.len(),
    ensures
        ed25519_accepts(
            tables.items[i].row.user,
            tables.items[i].row.item_bytes,
            tables.items[i].row.signature,
        ),
        tables.items[i].row.item_bytes.len() <= MAX_ITEM_SIZE,
{
    assert(item_sound()(tables.items[i]));
}

/// No two items have the same author and signature, no two profile rows the
/// same user, and no two follow rows the same follower and followed user.
pub proof fn law_keys_unique(tables: Tables, i: int, j: int)
    requires
        tables.wf(),
        0 <= i < j,
    ensures
        j < tables.items.len() ==> !(tables.items[i].row.user == tables.items[j].row.user
            && tables.items[i].row.signature == tables.items[j].row.signature),
        j < tables.profiles.len() ==> tables.profiles[i].user != tables.profiles[j].user,
        j < tables.follows.len() ==> !(tables.follows[i].source == tables.follows[j].source
            && tables.follows[i].followed == tables.follows[j].followed),
{
    if j < tables.items.len() {
        assert(items_in_order()(tables.items[i], tables.items[j]));
    }
}

/// The item that a profile row points at is stored, is a profile, and has
/// the latest signed time of all the profiles that its user has sent.
pub proof fn law_profile_is_latest(tables: Tables, p: int, e: int)
    requires
        tables.wf(),
        0 <= p < tables.profiles.len(),
        0 <= e < tables.items.len(),
        tables.items[e].is_profile,
        tables.items[e].row.user == tables.profiles[p].user,
    ensures
        first_match(
            tables.items,
            item_is(tables.profiles[p].user, tables.profiles[p].signature),
        ) matches Some(latest) && latest.is_profile && latest.row.user == tables.profiles[p].user
            && latest.row.signature == tables.profiles[p].signature && latest.row.timestamp
            >= tables.items[e].row.timestamp,
{
    let row = tables.profiles[p];
    let user = row.user;
    assert(profile_points(tables.items)(row));
    assert(profile_bound(tables.items, tables.profiles)(tables.items[e]));
    let found = lemma_first_match_found(tables.profiles, profile_is(user));
    if found != p {
        assert(profile_is(user)(tables.profiles[p]));
        if found < p {
            assert(distinct_profiles()(tables.profiles[found], tables.profiles[p]));
        } else {
            assert(!profile_is(user)(tables.profiles[p]));
        }
    }
    lemma_first_match_found(tables.items, item_is(row.user, row.signature));
}

/// Every attachment row has a size that is not negative and a name that
/// holds neither `/` nor `\`.
pub proof fn law_attachment_rows_sound(tables: Tables, i: int)
    requires
        tables.wf(),
        0 <= i < tables.attachments.len(),
    ensures
        tables.attachments[i].size >= 0,
        !tables.attachments[i].name.contains('/'),
        !tables.attachments[i].name.contains('\\'),
{
    assert(attachment_sound()(tables.attachments[i]));
}

/// Contents under a key of 64 bytes hash to that key.
pub proof fn law_contents_hash_to_key(tables: Tables, i: int)
    requires
        tables.wf(),
        0 <= i < tables.blobs.len(),
        tables.blobs[i].key.len() == HASH_BYTES,
    ensures
        sha512_digest(tables.blobs[i].contents) == tables.blobs[i].key,
{
    assert(blob_sound()(tables.blobs[i]));
}

/// Contents under a key of 31 bytes are those of an upload under way: no
/// attachment row names them.
pub proof fn law_temporary_contents_unreferenced(tables: Tables, i: int)
    requires
        tables.wf(),
        0 <= i < tables.blobs.len(),
        tables.blobs[i].key.len() == TEMP_KEY_BYTES,
    ensures
        !referenced_in(tables.attachments)(tables.blobs[i]),
{
    let key = tables.blobs[i].key;
    lemma_any_exists(tables.attachments, attachment_has_hash(key));
    if any(tables.attachments, attachment_has_hash(key)) {
        let k = choose|k: int|
            0 <= k < tables.attachments.len() && attachment_has_hash(key)(
                #[trigger] tables.attachments[k],
            );
        assert(attachment_sound()(tables.attachments[k]));
    }
}

/// What a listing of item rows holds: each row is that of a stored item
/// that passes the listing's test, and the rows come newest first.
proof fn lemma_listing(tables: Tables, test: spec_fn(StoredItemView) -> bool) -> (places: Seq<int>)
    requires
        tables.wf(),
    ensures
        places.len() == tables.items.filter(test).len(),
        forall|i: int|
            0 <= i < places.len() ==> 0 <= #[trigger] places[i] < tables.items.len() && test(
                tables.items[places[i]],
            ) && tables.items.filter(test)[i] == tables.items[places[i]],
        pairwise(tables.items.filter(test), items_in_order()),
{
    lemma_filter_pairwise(tables.items, test, items_in_order());
    lemma_filter_places(tables.items, test)
}

/// The listings of a user's items and of the answers to an item hold only
/// items of known authors, newest first.
pub proof fn law_item_listings_show_known_authors(
    tables: Tables,
    user: Seq<u8>,
    signature: Seq<u8>,
    before: i64,
)
    requires
        tables.wf(),
    ensures
        forall|i: int|
            0 <= i < tables.user_items(user, before).len() ==> tables.known(
                (#[trigger] tables.user_items(user, before)[i]).user,
            ),
        forall|i: int|
            0 <= i < tables.reply_items(user, signature, before).len() ==> tables.known(
                (#[trigger] tables.reply_items(user, signature, before)[i]).user,
            ),
        newest_first(tables.user_items(user, before)),
        newest_first(tables.reply_items(user, signature, before)),
{
    let by_user = tables.by_user_before(user, before);
    let places = lemma_listing(tables, by_user);
    let picked = tables.items.filter(by_user);
    assert forall|i: int| 0 <= i < tables.user_items(user, before).len() implies tables.known(
        (#[trigger] tables.user_items(user, before)[i]).user,
    ) by {
        assert(by_user(tables.items[places[i]]));
    }
    assert forall|i: int, j: int| 0 <= i < j < picked.len() implies (#[trigger] tables.user_items(
        user,
        before,
    )[i]).timestamp >= (#[trigger] tables.user_items(user, before)[j]).timestamp by {
        assert(items_in_order()(picked[i], picked[j]));
    }
    let replies = tables.reply_before(user, signature, before);
    let reply_places = lemma_listing(tables, replies);
    let answers = tables.items.filter(replies);
    assert forall|i: int|
        0 <= i < tables.reply_items(user, signature, before).len() implies tables.known(
        (#[trigger] tables.reply_items(user, signature, before)[i]).user,
    ) by {
        assert(replies(tables.items[reply_places[i]]));
    }
    assert forall|i: int, j: int| 0 <= i < j < answers.len() implies (#[trigger] tables.reply_items(
        user,
        signature,
        before,
    )[i]).timestamp >= (#[trigger] tables.reply_items(user, signature, before)[j]).timestamp by {
        assert(items_in_order()(answers[i], answers[j]));
    }
}

/// The home page and a user's feed hold only items of known authors,
/// newest first.
pub proof fn law_display_listings_show_known_authors(tables: Tables, user: Seq<u8>, before: i64)
    requires
        tables.wf(),
    ensures
        forall|i: int|
            0 <= i < tables.homepage_items(before).len() ==> tables.known(
                (#[trigger] tables.homepage_items(before)[i]).item.user,
            ),
        forall|i: int|
            0 <= i < tables.user_feed_items(user, before).len() ==> tables.known(
                (#[trigger] tables.user_feed_items(user, before)[i]).item.user,
            ),
        forall|i: int, j: int|
            0 <= i < j < tables.homepage_items(before).len() ==> (#[trigger] tables.homepage_items(
                before,
            )[i]).item.timestamp >= (#[trigger] tables.homepage_items(before)[j]).item.timestamp,
        forall|i: int, j: int|
            0 <= i < j < tables.user_feed_items(user, before).len() ==> (
            #[trigger] tables.user_feed_items(user, before)[i]).item.timestamp >= (
            #[trigger] tables.user_feed_items(user, before)[j]).item.timestamp,
{
    let home = tables.on_homepage_before(before);
    let places = lemma_listing(tables, home);
    let picked = tables.items.filter(home);
    assert forall|i: int| 0 <= i < tables.homepage_items(before).len() implies tables.known(
        (#[trigger] tables.homepage_items(before)[i]).item.user,
    ) by {
        let author = tables.items[places[i]].row.user;
        assert(home(tables.items[places[i]]));
        lemma_homepage_user_is_server_user(tables, author);
    }
    assert forall|i: int, j: int| 0 <= i < j < picked.len() implies (
    #[trigger] tables.homepage_items(before)[i]).item.timestamp >= (
    #[trigger] tables.homepage_items(before)[j]).item.timestamp by {
        assert(items_in_order()(picked[i], picked[j]));
    }
    let feed = tables.in_feed_before(user, before);
    let feed_places = lemma_listing(tables, feed);
    let fed = tables.items.filter(feed);
    assert forall|i: int| 0 <= i < tables.user_feed_items(user, before).len() implies tables.known(
        (#[trigger] tables.user_feed_items(user, before)[i]).item.user,
    ) by {
        assert(feed(tables.items[feed_places[i]]));
    }
    assert forall|i: int, j: int| 0 <= i < j < fed.len() implies (
    #[trigger] tables.user_feed_items(user, before)[i]).item.timestamp >= (
    #[trigger] tables.user_feed_items(user, before)[j]).item.timestamp by {
        assert(items_in_order()(fed[i], fed[j]));
    }
}

/// A user who is shown on the home page is a server user.
proof fn lemma_homepage_user_is_server_user(tables: Tables, user: Seq<u8>)
    requires
        tables.on_homepage(user),
    ensures
        tables.is_server_user(user),
{
    let i = lemma_first_match_found(tables.server_users, homepage_user_is(user));
    lemma_some_match(tables.server_users, server_user_is(user), i);
}

/// A single item, the latest profile of a user, and what is known of an
/// attachment or handed out of it are shown only where the author is known.
pub proof fn law_lookups_show_known_authors(
    tables: Tables,
    user: Seq<u8>,
    signature: Seq<u8>,
    name: Seq<char>,
)
    requires
        tables.wf(),
    ensures
        tables.user_item(user, signature) is Some ==> tables.known(user),
        tables.user_item(user, signature) matches Some(row) ==> row.user == user && row.signature
            == signature,
        tables.user_profile(user) matches Some(row) ==> row.user == user && tables.known(user),
        tables.attachment_meta(user, signature, name) is Some ==> tables.known(user),
        tables.attachment_contents(user, signature, name) is Some ==> tables.known(user),
{
    if first_match(tables.items, item_is(user, signature)) is Some {
        lemma_first_match_found(tables.items, item_is(user, signature));
    }
    if first_match(tables.profiles, profile_is(user)) is Some {
        let p = first_match(tables.profiles, profile_is(user))->Some_0;
        lemma_first_match_found(tables.profiles, profile_is(user));
        if first_match(tables.items, item_is(p.user, p.signature)) is Some {
            lemma_first_match_found(tables.items, item_is(p.user, p.signature));
        }
    }
}

/// The follows of a user who is no server user make nobody known: putting
/// them in place of the user's earlier ones leaves the search for a row by
/// which a server user follows `followed` as it was.
proof fn lemma_follows_of_other_users_stay(
    tables: Tables,
    source: Seq<u8>,
    entries: Seq<FollowView>,
    followed: Seq<u8>,
)
    requires
        !tables.is_server_user(source),
    ensures
        first_match(
            put_follows(tables.follows.filter(not_from(source)), source, entries),
            trusted_follow_of(tables.server_users, followed),
        ) == first_match(tables.follows, trusted_follow_of(tables.server_users, followed)),
    decreases entries.len(),
{
    let trusted = trusted_follow_of(tables.server_users, followed);
    if entries.len() == 0 {
        lemma_filter_keeps(tables.follows, not_from(source), trusted);
    } else {
        lemma_follows_of_other_users_stay(tables, source, entries.drop_last(), followed);
        let row = follow_row_of(source, entries.last());
        lemma_put_keeps(
            put_follows(tables.follows.filter(not_from(source)), source, entries.drop_last()),
            other_follow(row.source, row.followed),
            row,
            trusted,
        );
    }
}

/// Saving an item leaves its author as known as before.
pub proof fn law_saving_keeps_author_known(tables: Tables, row: ItemRowView, item: ItemView)
    requires
        tables.wf(),
        tables.save_fault(row, item) is None,
    ensures
        tables.saved(row, item).known(row.user) == tables.known(row.user),
{
    if !tables.is_server_user(row.user) {
        lemma_follows_of_other_users_stay(tables, row.user, item.follows(), row.user);
    }
}

/// An item that was saved is found again, byte for byte, where its author
/// is known.
pub proof fn law_saved_item_is_found(tables: Tables, row: ItemRowView, item: ItemView)
    requires
        tables.wf(),
        tables.save_fault(row, item) is None,
        tables.known(row.user),
    ensures
        tables.saved(row, item).user_item(row.user, row.signature) == Some(row),
        tables.saved(row, item).has_item(row.user, row.signature),
{
    let new = StoredItemView { row, is_profile: item.item_type is Profile };
    law_saving_keeps_author_known(tables, row, item);
    lemma_place_by_time(tables.items, row.timestamp);
    lemma_insert_finds(
        tables.items,
        place_by_time(tables.items, row.timestamp),
        new,
        item_is(row.user, row.signature),
    );
}

/// An item that a client sent and the server took is found again, byte
/// for byte.
pub proof fn law_put_item_is_found(
    tables: Tables,
    user: Seq<u8>,
    signature: Seq<u8>,
    bytes: Seq<u8>,
    item: ItemView,
    received: i64,
    max_drift_ms: Option<u64>,
)
    requires
        tables.wf(),
        tables.put_fault(user, signature, bytes, Some(item), received, max_drift_ms) is None,
    ensures
        tables.saved(row_for(user, signature, bytes, item, received), item).user_item(
            user,
            signature,
        ) matches Some(row) && row.item_bytes == bytes,
{
    law_saved_item_is_found(
        tables,
        row_for(user, signature, bytes, item, received),
        item,
    );
}

/// Whether nothing but `contents` lies under `hash`: no other bytes with
/// the same hash were stored before.
pub open spec fn no_other_contents(tables: Tables, hash: Seq<u8>, contents: Seq<u8>) -> bool {
    first_match(tables.blobs, blob_is(hash)) matches Some(there) ==> there.contents == contents
}

/// Whether an item of a known author declares a file `name` with the hash `hash`.
pub open spec fn declares(
    tables: Tables,
    user: Seq<u8>,
    signature: Seq<u8>,
    name: Seq<char>,
    hash: Seq<u8>,
) -> bool {
    tables.known(user) && match first_match(
        tables.attachments,
        attachment_is(user, signature, name),
    ) {
        Some(a) => a.hash == hash,
        None => false,
    }
}

/// The bytes that the attachment `name` of an item hands out.
pub open spec fn handed_out(
    tables: Tables,
    user: Seq<u8>,
    signature: Seq<u8>,
    name: Seq<char>,
) -> Option<Seq<u8>> {
    match tables.attachment_contents(user, signature, name) {
        Some(found) => Some(found.1.contents),
        None => None,
    }
}

/// Contents that were stored under their hash are what lies under it, and
/// what an attachment with that hash hands out, byte for byte, unless other
/// bytes with the same hash were stored before.
pub proof fn law_stored_contents_are_found(
    tables: Tables,
    hash: Seq<u8>,
    contents: Seq<u8>,
    user: Seq<u8>,
    signature: Seq<u8>,
    name: Seq<char>,
)
    requires
        tables.wf(),
        sha512_digest(contents) == hash,
        no_other_contents(tables, hash, contents),
    ensures
        first_match(tables.with_contents(hash, contents).blobs, blob_is(hash)) == Some(
            BlobView { key: hash, contents },
        ),
        declares(tables, user, signature, name, hash) ==> handed_out(
            tables.with_contents(hash, contents),
            user,
            signature,
            name,
        ) == Some(contents),
{
    let put = BlobView { key: hash, contents };
    lemma_any_exists(tables.blobs, blob_is(hash));
    if any(tables.blobs, blob_is(hash)) {
        lemma_first_match_found(tables.blobs, blob_is(hash));
    } else {
        assert forall|k: int| 0 <= k < tables.blobs.len() implies !blob_is(hash)(
            #[trigger] tables.blobs.push(put)[k],
        ) by {
            assert(!blob_is(hash)(tables.blobs[k]));
        }
        lemma_first_match_at(tables.blobs.push(put), blob_is(hash), tables.blobs.len() as int);
    }
}

/// However often the same contents are stored, one row holds them: the
/// second time changes nothing, not even the number of rows, and where no
/// upload was under way before, none is after.
pub proof fn law_contents_are_stored_once(tables: Tables, hash: Seq<u8>, contents: Seq<u8>)
    requires
        tables.wf(),
        hash.len() == HASH_BYTES,
    ensures
        tables.with_contents(hash, contents).with_contents(hash, contents) == tables.with_contents(
            hash,
            contents,
        ),
        tables.with_contents(hash, contents).blobs.filter(blob_is(hash)).len() == 1,
        pairwise(tables.with_contents(hash, contents).blobs, distinct_blobs()),
        tables.settled() ==> tables.with_contents(hash, contents).settled(),
{
    let once = tables.with_contents(hash, contents);
    let put = BlobView { key: hash, contents };
    lemma_any_exists(tables.blobs, blob_is(hash));
    if !any(tables.blobs, blob_is(hash)) {
        assert forall|k: int| 0 <= k < tables.blobs.len() implies distinct_blobs()(
            #[trigger] tables.blobs[k],
            put,
        ) by {
            assert(!blob_is(hash)(tables.blobs[k]));
        }
        lemma_push_pairwise(tables.blobs, put, distinct_blobs());
        lemma_some_match(once.blobs, blob_is(hash), tables.blobs.len() as int);
        if tables.settled() {
            lemma_push_each(tables.blobs, put, blob_at_rest());
        }
    }
    assert(any(once.blobs, blob_is(hash)));
    lemma_one_row_per_key(once.blobs, hash);
}

/// A store in which no upload is under way takes contents of the declared
/// size and hash whatever the key of the upload, and whatever uploads
/// failed before: a failed upload leaves the store as it was.
pub proof fn law_settled_store_takes_uploads(
    tables: Tables,
    temp_key: Seq<u8>,
    size: u64,
    hash: Seq<u8>,
    contents: Seq<u8>,
)
    requires
        tables.wf(),
        tables.settled(),
        temp_key.len() == TEMP_KEY_BYTES,
    ensures
        tables.upload_fault(temp_key, size, hash, contents) == contents_fault(size, hash, contents),
        contents.len() == size && sha512_digest(contents) == hash ==> tables.upload_fault(
            temp_key,
            size,
            hash,
            contents,
        ) is None,
{
    lemma_settled_has_no_upload(tables, temp_key);
}

/// No change to the store starts an upload that is not finished: where all
/// contents lay under their hashes before, they do after.
pub proof fn law_settled_is_kept(
    tables: Tables,
    row: ItemRowView,
    item: ItemView,
    server_user: ServerUserView,
    opts: PruneOpts,
)
    requires
        tables.settled(),
    ensures
        Tables::empty().settled(),
        tables.saved(row, item).settled(),
        tables.with_server_user(server_user).settled(),
        tables.without_server_user(server_user.user).settled(),
        tables.pruned(opts).settled(),
{
    lemma_pruned_settled(tables, opts);
}

/// Where no key occurs twice, the rows under a key that occurs are one.
proof fn lemma_one_row_per_key(blobs: Seq<BlobView>, key: Seq<u8>)
    requires
        pairwise(blobs, distinct_blobs()),
        any(blobs, blob_is(key)),
    ensures
        blobs.filter(blob_is(key)).len() == 1,
{
    let places = lemma_filter_places(blobs, blob_is(key));
    let found = lemma_first_match_found(blobs, blob_is(key));
    let hits = blobs.filter(blob_is(key));
    if hits.len() == 0 {
        let k = choose|k: int| 0 <= k < places.len() && #[trigger] places[k] == found;
        assert(false);
    }
    if hits.len() > 1 {
        assert(places[0] < places[1]);
        assert(distinct_blobs()(blobs[places[0]], blobs[places[1]]));
        assert(blob_is(key)(blobs[places[0]]));
        assert(blob_is(key)(blobs[places[1]]));
        assert(false);
    }
}

/// A page holds at least one item and at most `max_items`, and as many as
/// were asked for where that lies between the two.
pub proof fn law_page_limit(params: Pagination, max_items: usize)
    requires
        max_items >= 1,
    ensures
        1 <= page_limit(params, max_items) <= max_items,
        params.count matches Some(count) ==> page_limit(params, max_items) == if count < 1 {
            1
        } else if count > max_items {
            max_items as int
        } else {
            count as int
        },
        params.count is None ==> page_limit(params, max_items) == max_items,
{
}

/// Where a request names a time before which to look, that is the window,
/// whatever else it names.
pub proof fn law_before_wins(params: Pagination, now: Timestamp)
    requires
        params.before is Some,
    ensures
        requested_span(params, now) == TimeSpan::Before(
            Timestamp { unix_utc_ms: params.before->Some_0 },
        ),
{
}

/// A profile that supersedes the indexed one replaces all the follows of
/// its author: with no follows in it, none are left.
pub proof fn law_newer_profile_replaces_follows(tables: Tables, row: ItemRowView, item: ItemView)
    requires
        tables.wf(),
        tables.save_fault(row, item) is None,
        item.item_type is Profile,
        tables.supersedes(row.user, row.timestamp),
    ensures
        tables.saved(row, item).follows == put_follows(
            tables.follows.filter(not_from(row.user)),
            row.user,
            item.follows(),
        ),
        item.follows().len() == 0 ==> each(tables.saved(row, item).follows, not_from(row.user)),
        tables.saved(row, item).profile_name(row.user) == Some(item.display_name()),
{
    lemma_filter_passes(tables.follows, not_from(row.user));
    lemma_put_finds(
        tables.profiles,
        other_profile(row.user),
        ProfileRowView {
            user: row.user,
            signature: row.signature,
            display_name: item.display_name(),
        },
        profile_is(row.user),
    );
}

/// A profile that is not newer than the indexed one is kept as an item and
/// leaves the follow and profile tables as they were.
pub proof fn law_older_profile_changes_no_index(tables: Tables, row: ItemRowView, item: ItemView)
    requires
        tables.wf(),
        tables.save_fault(row, item) is None,
        item.item_type is Profile,
        !tables.supersedes(row.user, row.timestamp),
    ensures
        tables.saved(row, item).follows == tables.follows,
        tables.saved(row, item).profiles == tables.profiles,
        tables.saved(row, item).has_item(row.user, row.signature),
{
    let new = StoredItemView { row, is_profile: true };
    lemma_place_by_time(tables.items, row.timestamp);
    lemma_insert_finds(
        tables.items,
        place_by_time(tables.items, row.timestamp),
        new,
        item_is(row.user, row.signature),
    );
}

/// An item of exactly `MAX_ITEM_SIZE` bytes is small enough, one byte more
/// is too many.
pub proof fn law_item_size_boundary(len: nat)
    ensures
        item_size_ok(len) <==> len <= MAX_ITEM_SIZE,
        item_size_ok(MAX_ITEM_SIZE as nat),
        !item_size_ok((MAX_ITEM_SIZE + 1) as nat),
{
}

/// Usage rows in order: no row has a smaller total than a later one, and
/// no two rows are for the same user.
pub open spec fn usage_in_order() -> spec_fn(UsageRowView, UsageRowView) -> bool {
    |a: UsageRowView, b: UsageRowView| a.total_bytes >= b.total_bytes && a.user_id != b.user_id
}

/// `user` has a row among `rows`.
pub open spec fn user_has_row(rows: Seq<UsageRowView>, user: Seq<u8>) -> bool {
    exists|i: int| 0 <= i < rows.len() && (#[trigger] rows[i]).user_id == user
}

/// Each row is the usage of its user, who is an author of `items`.
pub open spec fn rows_are_usage(
    tables: Tables,
    items: Seq<StoredItemView>,
    rows: Seq<UsageRowView>,
) -> bool {
    forall|i: int|
        0 <= i < rows.len() ==> (#[trigger] rows[i]) == tables.usage_of(rows[i].user_id) && any(
            items,
            item_by(rows[i].user_id),
        )
}

/// Each author of `items` has a row.
pub open spec fn authors_have_rows(items: Seq<StoredItemView>, rows: Seq<UsageRowView>) -> bool {
    forall|k: int| 0 <= k < items.len() ==> user_has_row(rows, (#[trigger] items[k]).row.user)
}

/// The usage rows for the authors of `items` are what the tables say of
/// usage: one row for each author of `items` and for nobody else, each row
/// the usage of its user, the largest total first.
pub open spec fn usage_rows_sound(
    tables: Tables,
    items: Seq<StoredItemView>,
    rows: Seq<UsageRowView>,
) -> bool {
    &&& pairwise(rows, usage_in_order())
    &&& rows_are_usage(tables, items, rows)
    &&& authors_have_rows(items, rows)
}

/// The usage listing holds one row for every author who has an item in the
/// store and for nobody else, each row the usage of its user, the largest
/// total first.
pub proof fn law_usage_rows(tables: Tables)
    ensures
        usage_rows_sound(tables, tables.items, tables.usage_by_user()),
{
    lemma_usage_among(tables, tables.items);
}

/// An author who was seen before adds no row, and the rows stay sound.
proof fn lemma_usage_seen(tables: Tables, items: Seq<StoredItemView>, rows: Seq<UsageRowView>)
    requires
        items.len() > 0,
        usage_rows_sound(tables, items.drop_last(), rows),
        any(items.drop_last(), item_by(items.last().row.user)),
    ensures
        usage_rows_sound(tables, items, rows),
{
    let front = items.drop_last();
    let user = items.last().row.user;
    assert(front.push(items.last()) =~= items);
    let k0 = lemma_first_match_found(front, item_by(user));
    assert(user_has_row(rows, front[k0].row.user));
    assert forall|k: int| 0 <= k < items.len() implies user_has_row(
        rows,
        (#[trigger] items[k]).row.user,
    ) by {
        if k < front.len() {
            assert(items[k] == front[k]);
        }
    }
    assert forall|i: int| 0 <= i < rows.len() implies (#[trigger] rows[i]) == tables.usage_of(
        rows[i].user_id,
    ) && any(items, item_by(rows[i].user_id)) by {
        lemma_any_grows(front, items.last(), item_by(rows[i].user_id));
    }
}

/// An author who is new gets a row at its place, and the rows stay in order.
proof fn lemma_usage_new_order(
    tables: Tables,
    items: Seq<StoredItemView>,
    rest: Seq<UsageRowView>,
    row: UsageRowView,
)
    requires
        items.len() > 0,
        usage_rows_sound(tables, items.drop_last(), rest),
        !any(items.drop_last(), item_by(items.last().row.user)),
        row == tables.usage_of(items.last().row.user),
    ensures
        pairwise(
            rest.insert(lead(rest, not_smaller_than(row.total_bytes)), row),
            usage_in_order(),
        ),
{
    let front = items.drop_last();
    let user = items.last().row.user;
    let stays = not_smaller_than(row.total_bytes);
    lemma_lead(rest, stays);
    let place = lead(rest, stays);
    assert forall|i: int| 0 <= i < rest.len() implies (#[trigger] rest[i]).user_id != user by {
        if rest[i].user_id == user {
            assert(any(front, item_by(rest[i].user_id)));
        }
    }
    assert forall|k: int| 0 <= k < place implies usage_in_order()(#[trigger] rest[k], row) by {
        assert(stays(rest[k]));
    }
    assert forall|k: int| place <= k < rest.len() implies usage_in_order()(
        row,
        #[trigger] rest[k],
    ) by {
        assert(!stays(rest[place]));
        if k > place {
            assert(usage_in_order()(rest[place], rest[k]));
        }
    }
    lemma_insert_pairwise(rest, place, row, usage_in_order());
}

/// An author who is new gets a row, and each author has one.
proof fn lemma_usage_new_members(
    tables: Tables,
    items: Seq<StoredItemView>,
    rest: Seq<UsageRowView>,
    place: int,
)
    requires
        items.len() > 0,
        0 <= place <= rest.len(),
        rows_are_usage(tables, items.drop_last(), rest),
        authors_have_rows(items.drop_last(), rest),
    ensures
        rows_are_usage(
            tables,
            items,
            rest.insert(place, tables.usage_of(items.last().row.user)),
        ),
        authors_have_rows(items, rest.insert(place, tables.usage_of(items.last().row.user))),
{
    let front = items.drop_last();
    let user = items.last().row.user;
    let row = tables.usage_of(user);
    let rows = rest.insert(place, row);
    assert(front.push(items.last()) =~= items);
    assert forall|i: int| 0 <= i < rows.len() implies (#[trigger] rows[i]) == tables.usage_of(
        rows[i].user_id,
    ) && any(items, item_by(rows[i].user_id)) by {
        if i == place {
            lemma_some_match(items, item_by(user), items.len() - 1);
        } else {
            let at = if i < place {
                i
            } else {
                i - 1
            };
            assert(rows[i] == rest[at]);
            lemma_any_grows(front, items.last(), item_by(rest[at].user_id));
        }
    }
    assert forall|k: int| 0 <= k < items.len() implies user_has_row(
        rows,
        (#[trigger] items[k]).row.user,
    ) by {
        if k < front.len() {
            assert(items[k] == front[k]);
            assert(user_has_row(rest, front[k].row.user));
            let i1 = choose|i1: int|
                0 <= i1 < rest.len() && (#[trigger] rest[i1]).user_id == front[k].row.user;
            let at = if i1 < place {
                i1
            } else {
                i1 + 1
            };
            assert(rows[at] == rest[i1]);
        } else {
            assert(rows[place].user_id == items[k].row.user);
        }
    }
}

proof fn lemma_usage_among(tables: Tables, items: Seq<StoredItemView>)
    ensures
        usage_rows_sound(tables, items, tables.usage_among(items)),
    decreases items.len(),
{
    if items.len() > 0 {
        let front = items.drop_last();
        let rest = tables.usage_among(front);
        let user = items.last().row.user;
        lemma_usage_among(tables, front);
        if any(front, item_by(user)) {
            lemma_usage_seen(tables, items, rest);
        } else {
            let row = tables.usage_of(user);
            let stays = not_smaller_than(row.total_bytes);
            lemma_lead(rest, stays);
            lemma_usage_new_order(tables, items, rest, row);
            lemma_usage_new_members(tables, items, rest, lead(rest, stays));
        }
    }
}

/// What is found in a table is found in the table with one more row.
proof fn lemma_any_grows<A>(table: Seq<A>, row: A, p: spec_fn(A) -> bool)
    requires
        any(table, p),
    ensures
        any(table.push(row), p),
{
    let i = lemma_first_match_found(table, p);
    assert(table.push(row)[i] == table[i]);
    lemma_some_match(table.push(row), p, i);
}

/// An item row is listed before a later one where all items are listed.
pub open spec fn rows_in_key_order() -> spec_fn(ItemRowView, ItemRowView) -> bool {
    |a: ItemRowView, b: ItemRowView| key_less(a.user, a.signature, b.user, b.signature)
}

/// The listing of all items holds what it should: the rows rise by author
/// and signature, each is the row of an item of `items` behind the cursor,
/// and each such item has its row in the listing.
pub open spec fn rows_by_key_sound(
    items: Seq<StoredItemView>,
    cursor: Option<(Seq<u8>, Seq<u8>)>,
    rows: Seq<ItemRowView>,
) -> bool {
    &&& pairwise(rows, rows_in_key_order())
    &&& rows_are_items(items, cursor, rows)
    &&& items_are_rows(items, cursor, rows)
}

/// `row` is the row of an item of `items` behind the cursor.
pub open spec fn row_is_item(
    items: Seq<StoredItemView>,
    cursor: Option<(Seq<u8>, Seq<u8>)>,
    row: ItemRowView,
) -> bool {
    exists|k: int|
        0 <= k < items.len() && (#[trigger] items[k]).row == row && behind_cursor(cursor)(items[k])
}

/// `row` is one of `rows`.
pub open spec fn row_is_listed(rows: Seq<ItemRowView>, row: ItemRowView) -> bool {
    exists|i: int| 0 <= i < rows.len() && (#[trigger] rows[i]) == row
}

/// The rows of `rows` are those of items of `items` behind the cursor.
pub open spec fn rows_are_items(
    items: Seq<StoredItemView>,
    cursor: Option<(Seq<u8>, Seq<u8>)>,
    rows: Seq<ItemRowView>,
) -> bool {
    forall|i: int| 0 <= i < rows.len() ==> row_is_item(items, cursor, #[trigger] rows[i])
}

/// The items of `items` behind the cursor have their rows in `rows`.
pub open spec fn items_are_rows(
    items: Seq<StoredItemView>,
    cursor: Option<(Seq<u8>, Seq<u8>)>,
    rows: Seq<ItemRowView>,
) -> bool {
    forall|k: int|
        0 <= k < items.len() && behind_cursor(cursor)(#[trigger] items[k]) ==> row_is_listed(
            rows,
            items[k].row,
        )
}

/// The order by author and signature passes on.
proof fn lemma_key_less_transitive(a: ItemRowView, b: ItemRowView, c: ItemRowView)
    requires
        key_less(a.user, a.signature, b.user, b.signature),
        key_less(b.user, b.signature, c.user, c.signature),
    ensures
        key_less(a.user, a.signature, c.user, c.signature),
{
    lemma_bytes_less_irreflexive(a.user);
    lemma_bytes_less_irreflexive(c.user);
    if bytes_less(a.user, b.user) && bytes_less(b.user, c.user) {
        lemma_bytes_less_transitive(a.user, b.user, c.user);
    }
    if a.user == b.user && b.user == c.user {
        lemma_bytes_less_transitive(a.signature, b.signature, c.signature);
    }
}

/// Of two items with different keys, one is listed before the other.
proof fn lemma_key_less_total(a: ItemRowView, b: ItemRowView)
    ensures
        key_less(a.user, a.signature, b.user, b.signature) || key_less(
            b.user,
            b.signature,
            a.user,
            a.signature,
        ) || (a.user == b.user && a.signature == b.signature),
{
    lemma_bytes_less_total(a.user, b.user);
    lemma_bytes_less_total(a.signature, b.signature);
}

/// The listing of all items holds, in the order of authors and signatures,
/// the row of each stored item behind the cursor, and nothing else.
pub proof fn law_all_items(tables: Tables, cursor: Option<(Seq<u8>, Seq<u8>)>)
    requires
        tables.wf(),
    ensures
        rows_by_key_sound(tables.items, cursor, tables.all_items(cursor)),
{
    lemma_rows_by_key(tables.items, cursor);
}

/// One more item leaves the rows in order.
proof fn lemma_rows_by_key_order(
    items: Seq<StoredItemView>,
    cursor: Option<(Seq<u8>, Seq<u8>)>,
    rest: Seq<ItemRowView>,
)
    requires
        items.len() > 0,
        pairwise(items, items_in_order()),
        behind_cursor(cursor)(items.last()),
        pairwise(rest, rows_in_key_order()),
        rows_are_items(items.drop_last(), cursor, rest),
    ensures
        pairwise(
            rest.insert(lead(rest, row_sorts_before(items.last().row)), items.last().row),
            rows_in_key_order(),
        ),
{
    let front = items.drop_last();
    let last = items.len() - 1;
    let e = items.last();
    let stays = row_sorts_before(e.row);
    lemma_lead(rest, stays);
    let place = lead(rest, stays);
    assert forall|k: int| 0 <= k < place implies rows_in_key_order()(#[trigger] rest[k], e.row) by {
        assert(stays(rest[k]));
    }
    assert forall|k: int| place <= k < rest.len() implies rows_in_key_order()(
        e.row,
        #[trigger] rest[k],
    ) by {
        assert(row_is_item(front, cursor, rest[place]));
        let k0 = choose|k0: int|
            0 <= k0 < front.len() && (#[trigger] front[k0]).row == rest[place] && behind_cursor(
                cursor,
            )(front[k0]);
        assert(front[k0] == items[k0]);
        assert(items_in_order()(items[k0], items[last]));
        lemma_key_less_total(e.row, rest[place]);
        assert(!stays(rest[place]));
        if k > place {
            assert(rows_in_key_order()(rest[place], rest[k]));
            lemma_key_less_transitive(e.row, rest[place], rest[k]);
        }
    }
    lemma_insert_pairwise(rest, place, e.row, rows_in_key_order());
}

/// One more item, listed or not, leaves the rows those of items behind the
/// cursor.
proof fn lemma_rows_by_key_members(
    items: Seq<StoredItemView>,
    cursor: Option<(Seq<u8>, Seq<u8>)>,
    rest: Seq<ItemRowView>,
    rows: Seq<ItemRowView>,
    place: int,
)
    requires
        items.len() > 0,
        rows_are_items(items.drop_last(), cursor, rest),
        items_are_rows(items.drop_last(), cursor, rest),
        0 <= place <= rest.len(),
        rows == if behind_cursor(cursor)(items.last()) {
            rest.insert(place, items.last().row)
        } else {
            rest
        },
    ensures
        rows_are_items(items, cursor, rows),
        items_are_rows(items, cursor, rows),
{
    let front = items.drop_last();
    let last = items.len() - 1;
    let listed = behind_cursor(cursor)(items.last());
    assert forall|i: int| 0 <= i < rows.len() implies row_is_item(
        items,
        cursor,
        #[trigger] rows[i],
    ) by {
        if listed && i == place {
            assert(items[last].row == rows[i]);
        } else {
            let at = if listed && i > place {
                i - 1
            } else {
                i
            };
            assert(rows[i] == rest[at]);
            assert(row_is_item(front, cursor, rest[at]));
            let k1 = choose|k1: int|
                0 <= k1 < front.len() && (#[trigger] front[k1]).row == rest[at] && behind_cursor(
                    cursor,
                )(front[k1]);
            assert(items[k1] == front[k1]);
        }
    }
    assert forall|k: int|
        0 <= k < items.len() && behind_cursor(cursor)(#[trigger] items[k]) implies row_is_listed(
        rows,
        items[k].row,
    ) by {
        if k < last {
            assert(items[k] == front[k]);
            assert(row_is_listed(rest, front[k].row));
            let i1 = choose|i1: int| 0 <= i1 < rest.len() && (#[trigger] rest[i1]) == front[k].row;
            let at = if listed && i1 >= place {
                i1 + 1
            } else {
                i1
            };
            assert(rows[at] == rest[i1]);
        } else {
            assert(rows[place] == items[k].row);
        }
    }
}

proof fn lemma_rows_by_key(items: Seq<StoredItemView>, cursor: Option<(Seq<u8>, Seq<u8>)>)
    requires
        pairwise(items, items_in_order()),
    ensures
        pairwise(rows_by_key(items, cursor), rows_in_key_order()),
        rows_are_items(items, cursor, rows_by_key(items, cursor)),
        items_are_rows(items, cursor, rows_by_key(items, cursor)),
    decreases items.len(),
{
    if items.len() > 0 {
        let front = items.drop_last();
        assert forall|i: int, j: int| 0 <= i < j < front.len() implies items_in_order()(
            #[trigger] front[i],
            #[trigger] front[j],
        ) by {
            assert(items_in_order()(items[i], items[j]));
        }
        lemma_rows_by_key(front, cursor);
        let rest = rows_by_key(front, cursor);
        let place = lead(rest, row_sorts_before(items.last().row));
        lemma_lead(rest, row_sorts_before(items.last().row));
        if behind_cursor(cursor)(items.last()) {
            lemma_rows_by_key_order(items, cursor, rest);
        }
        lemma_rows_by_key_members(items, cursor, rest, rows_by_key(items, cursor), place);
    }
}

/// A page that is not over its limit stays so with every row it takes, and
/// the walk is stopped only by a row that found the page full.
pub proof fn law_page_stays_within_limit<T>(
    items: Seq<T>,
    has_more: bool,
    limit: int,
    item: T,
    keep: bool,
)
    requires
        items.len() <= limit,
    ensures
        page_step(items, has_more, limit, item, keep).0.len() <= limit,
        !page_step(items, has_more, limit, item, keep).2 <==> keep && items.len() == limit,
        !page_step(items, has_more, limit, item, keep).2 ==> page_step(
            items,
            has_more,
            limit,
            item,
            keep,
        ).1,
        page_step(items, has_more, limit, item, keep).2 ==> page_step(
            items,
            has_more,
            limit,
            item,
            keep,
        ).1 == has_more,
{
}

/// Deleting the items of unknown authors changes nothing about who is
/// known, leaves no item of an unknown author, and leaves the items of
/// known authors as they were.
pub proof fn law_pruned_items(tables: Tables, user: Seq<u8>, signature: Seq<u8>)
    requires
        tables.wf(),
    ensures
        tables.without_unknown_items().known(user) == tables.known(user),
        each(tables.without_unknown_items().items, tables.item_of_known()),
        tables.without_unknown_items().user_item(user, signature) == tables.user_item(
            user,
            signature,
        ),
        !tables.known(user) ==> !tables.without_unknown_items().has_item(user, signature),
{
    let trusted = trusted_follow_of(tables.server_users, user);
    assert forall|k: int|
        0 <= k < tables.follows.len() && trusted(
            #[trigger] tables.follows[k],
        ) implies tables.follow_of_known()(tables.follows[k]) by {}
    lemma_filter_keeps(tables.follows, tables.follow_of_known(), trusted);
    lemma_filter_passes(tables.items, tables.item_of_known());
    if tables.known(user) {
        lemma_filter_keeps(tables.items, tables.item_of_known(), item_is(user, signature));
    } else {
        let kept = tables.items.filter(tables.item_of_known());
        lemma_any_exists(kept, item_is(user, signature));
        if any(kept, item_is(user, signature)) {
            let k = choose|k: int| 0 <= k < kept.len() && item_is(user, signature)(#[trigger] kept[k]);
            assert(tables.item_of_known()(kept[k]));
        }
    }
}

/// After the unused contents were deleted, an attachment row names
/// whatever is left, and what an attachment row names is left as it was.
pub proof fn law_pruned_contents(tables: Tables, hash: Seq<u8>)
    requires
        tables.wf(),
    ensures
        each(tables.without_unused_contents().blobs, referenced_in(tables.attachments)),
        any(tables.attachments, attachment_has_hash(hash)) ==> first_match(
            tables.without_unused_contents().blobs,
            blob_is(hash),
        ) == first_match(tables.blobs, blob_is(hash)),
{
    lemma_filter_passes(tables.blobs, referenced_in(tables.attachments));
    if any(tables.attachments, attachment_has_hash(hash)) {
        lemma_filter_keeps(tables.blobs, referenced_in(tables.attachments), blob_is(hash));
    }
}

/// A text is blank exactly if each of its characters is white space.
pub proof fn law_blank_is_all_white_space(text: Seq<char>)
    ensures
        blank(text) <==> forall|i: int| 0 <= i < text.len() ==> is_white_space(#[trigger] text[i]),
{
    lemma_trimmed_start(text);
    if trimmed_start(text).len() > 0 {
        lemma_trimmed_end(trimmed_start(text));
    }
}

} // verus!
