use diskuto::admin::{
    get_version, prune_opts, BackendOptions, DatabaseFault, FactoryBuilder, CURRENT_VERSION,
};
use diskuto::blobs::FileStream;
use diskuto::bytes::{bytes_before, bytes_equal, copy_bytes};
use diskuto::cache::{
    binds_or_default, immutable_etag, marks_immutable, CacheAction, CORS_ALLOW_METHODS,
    CORS_ALLOW_ORIGIN, CORS_EXPOSE_HEADERS, CORS_MAX_AGE, IMMUTABLE_CACHE_CONTROL, IMMUTABLE_ETAG,
};
use diskuto::error::{Failure, InvalidInput, SendError};
use diskuto::hash::{Hasher, SHA512};
use diskuto::icon::identicon_get_sync;
use diskuto::ingest::{
    check_item_size, check_timestamp, get_attachment_rows, get_reply_row, profile_supersedes,
    quota_check, MAX_ITEM_SIZE,
};
use diskuto::blobs::{check_stored_size, check_upload};
use diskuto::keys::{Signature, UserID};
use diskuto::model::{
    File, Item, ItemRow, ItemType, PruneOpts, QuotaDenyReason, ReplyRef,
};
use diskuto::store::display_name_for;
use diskuto::text::{is_blank, name_has_separator};
use diskuto::time::Timestamp;

fn builder() -> FactoryBuilder {
    FactoryBuilder::new("diskuto.sqlite3".to_string())
}

fn row_of(user: u8, signature: u8) -> ItemRow {
    ItemRow {
        user: UserID::from_vec(vec![user; 32]).unwrap(),
        signature: Signature::from_vec(vec![signature; 64]).unwrap(),
        timestamp: Timestamp { unix_utc_ms: 1 },
        received: Timestamp { unix_utc_ms: 2 },
        item_bytes: vec![1, 2, 3],
    }
}

fn post_with(files: Vec<File>) -> Item {
    Item { timestamp_ms_utc: 1, item_type: ItemType::Post { attachments: files } }
}

fn declared(name: &str, size: u64) -> File {
    File { name: name.to_string(), hash: vec![9u8; 64], size }
}

#[test]
fn blank_text_is_white_space_only() {
    assert!(is_blank(""));
    assert!(is_blank("   "));
    assert!(is_blank(" \t\n\u{a0}\u{3000}"));
    assert!(!is_blank(" a "));
    assert!(!is_blank("\u{200b}"));
}

#[test]
fn separators_are_slash_and_backslash() {
    assert!(name_has_separator("a/b"));
    assert!(name_has_separator("a\\b"));
    assert!(name_has_separator("/"));
    assert!(name_has_separator("..\\..\\x"));
    assert!(!name_has_separator("a.b"));
    assert!(!name_has_separator(""));
    assert!(!name_has_separator("a\u{2215}b"));
}

#[test]
fn display_name_prefers_the_followers_name() {
    let some = |s: &str| Some(s.to_string());
    assert_eq!(display_name_for(some("Bobby"), some("Robert")), some("Bobby"));
    assert_eq!(display_name_for(some("  "), some("Robert")), some("Robert"));
    assert_eq!(display_name_for(some(""), some("Robert")), some("Robert"));
    assert_eq!(display_name_for(None, some("Robert")), some("Robert"));
    assert_eq!(display_name_for(some("Bobby"), None), some("Bobby"));
    assert_eq!(display_name_for(some(" "), some(" ")), None);
    assert_eq!(display_name_for(None, some("")), None);
    assert_eq!(display_name_for(some(""), None), None);
    assert_eq!(display_name_for(None, None), None);
}

#[test]
fn bytes_are_compared_and_copied() {
    assert!(bytes_equal(&[1, 2, 3], &[1, 2, 3]));
    assert!(!bytes_equal(&[1, 2, 3], &[1, 2, 4]));
    assert!(!bytes_equal(&[1, 2, 3], &[1, 2]));
    assert!(bytes_equal(&[], &[]));
    assert_eq!(copy_bytes(&[4, 5, 6]), vec![4, 5, 6]);
    assert_eq!(copy_bytes(&[]), Vec::<u8>::new());
}

#[test]
fn bytes_before_is_the_order_of_the_dictionary() {
    assert!(bytes_before(&[1, 2], &[1, 3]));
    assert!(!bytes_before(&[1, 3], &[1, 2]));
    assert!(bytes_before(&[1], &[1, 0]));
    assert!(!bytes_before(&[1, 0], &[1]));
    assert!(bytes_before(&[], &[0]));
    assert!(!bytes_before(&[], &[]));
    assert!(!bytes_before(&[5, 5], &[5, 5]));
    assert!(bytes_before(&[0, 255], &[1]));
    assert!(bytes_before(&[127], &[128]));
}

#[test]
fn item_size_limit_is_thirty_two_kibibytes() {
    assert_eq!(MAX_ITEM_SIZE, 32 * 1024);
    assert_eq!(check_item_size(&vec![0u8; 32 * 1024]), Ok(()));
    assert_eq!(check_item_size(&vec![0u8; 32 * 1024 + 1]), Err(InvalidInput::ItemTooLarge));
    assert_eq!(check_item_size(&[]), Ok(()));
}

#[test]
fn attachment_rows_follow_the_declared_files() {
    let row = row_of(1, 2);
    let rows =
        get_attachment_rows(&row, &post_with(vec![declared("a", 5), declared("b", 0)])).unwrap();
    assert_eq!(rows.len(), 2);
    assert_eq!(rows[0].name, "a");
    assert_eq!(rows[0].size, 5);
    assert_eq!(rows[0].user_id, row.user);
    assert_eq!(rows[0].signature, row.signature);
    assert_eq!(rows[0].hash, SHA512::from_hash_bytes(&[9u8; 64]).unwrap());
    assert_eq!(rows[1].name, "b");
    assert_eq!(rows[1].size, 0);
}

#[test]
fn attachment_rows_of_other_kinds_of_item_are_none() {
    let row = row_of(1, 2);
    let profile = Item {
        timestamp_ms_utc: 1,
        item_type: ItemType::Profile { display_name: "x".to_string(), follows: vec![] },
    };
    assert_eq!(get_attachment_rows(&row, &profile), Ok(vec![]));
    assert_eq!(get_attachment_rows(&row, &post_with(vec![])), Ok(vec![]));
}

#[test]
fn first_faulty_file_decides_the_fault() {
    let row = row_of(1, 2);
    let mut short_hash = declared("a/b", u64::MAX);
    short_hash.hash = vec![1u8; 63];
    assert_eq!(get_attachment_rows(&row, &post_with(vec![short_hash])), Err(InvalidInput::Hash));
    assert_eq!(
        get_attachment_rows(&row, &post_with(vec![declared("a/b", u64::MAX)])),
        Err(InvalidInput::FileName)
    );
    assert_eq!(
        get_attachment_rows(&row, &post_with(vec![declared("ok", u64::MAX), declared("a/b", 1)])),
        Err(InvalidInput::FileSize)
    );
    assert_eq!(
        get_attachment_rows(&row, &post_with(vec![declared("ok", 1), declared("a\\b", 1)])),
        Err(InvalidInput::FileName)
    );
    assert_eq!(
        get_attachment_rows(&row, &post_with(vec![declared("ok", i64::MAX as u64)])).unwrap()[0].size,
        i64::MAX
    );
}

#[test]
fn reply_row_links_a_comment_to_its_target() {
    let row = row_of(1, 2);
    let comment = Item {
        timestamp_ms_utc: 1,
        item_type: ItemType::Comment {
            reply_to: ReplyRef { user_id: vec![3u8; 32], signature: vec![4u8; 64] },
        },
    };
    let reply = get_reply_row(&row, &comment).unwrap().unwrap();
    assert_eq!(reply.from_user_id, row.user);
    assert_eq!(reply.from_signature, row.signature);
    assert_eq!(reply.to_user_id.bytes(), &[3u8; 32][..]);
    assert_eq!(reply.to_signature.bytes(), &[4u8; 64][..]);
    assert_eq!(get_reply_row(&row, &post_with(vec![])), Ok(None));
}

#[test]
fn reply_row_of_a_malformed_target_is_a_fault() {
    let row = row_of(1, 2);
    let comment = |user: usize, signature: usize| Item {
        timestamp_ms_utc: 1,
        item_type: ItemType::Comment {
            reply_to: ReplyRef { user_id: vec![3u8; user], signature: vec![4u8; signature] },
        },
    };
    assert_eq!(get_reply_row(&row, &comment(31, 64)), Err(InvalidInput::UserID));
    assert_eq!(get_reply_row(&row, &comment(32, 65)), Err(InvalidInput::Signature));
    assert_eq!(get_reply_row(&row, &comment(0, 0)), Err(InvalidInput::UserID));
}

#[test]
fn item_kinds_are_told_apart() {
    let post = post_with(vec![]);
    assert!(post.has_post() && !post.has_comment() && !post.has_profile());
    let profile = Item {
        timestamp_ms_utc: 1,
        item_type: ItemType::Profile { display_name: String::new(), follows: vec![] },
    };
    assert!(profile.has_profile() && !profile.has_post() && !profile.has_comment());
    let comment = Item {
        timestamp_ms_utc: 1,
        item_type: ItemType::Comment {
            reply_to: ReplyRef { user_id: vec![], signature: vec![] },
        },
    };
    assert!(comment.has_comment() && !comment.has_post() && !comment.has_profile());
}

#[test]
fn file_stream_hands_out_pieces_of_thirty_two_kibibytes() {
    let contents: Vec<u8> = (0..70_000u32).map(|i| (i % 251) as u8).collect();
    let mut stream = FileStream::new(contents.clone(), 70_000);
    assert_eq!(stream.size(), 70_000);
    let first = stream.next_chunk().unwrap();
    assert_eq!(first.len(), 32_768);
    assert_eq!(first[..], contents[..32_768]);
    let second = stream.next_chunk().unwrap();
    assert_eq!(second[..], contents[32_768..65_536]);
    let third = stream.next_chunk().unwrap();
    assert_eq!(third.len(), 70_000 - 65_536);
    assert_eq!(third[..], contents[65_536..]);
    assert_eq!(stream.next_chunk(), None);
    assert_eq!(stream.next_chunk(), None);
}

#[test]
fn file_stream_of_nothing_ends_at_once() {
    let mut stream = FileStream::new(vec![], 0);
    assert_eq!(stream.next_chunk(), None);
    assert_eq!(stream.read_to_end(), Vec::<u8>::new());
}

#[test]
fn file_stream_of_exactly_one_piece() {
    let contents = vec![7u8; 32_768];
    let mut stream = FileStream::new(contents.clone(), 32_768);
    assert_eq!(stream.next_chunk(), Some(contents));
    assert_eq!(stream.next_chunk(), None);
}

#[test]
fn file_stream_read_to_end_gives_the_rest() {
    let contents: Vec<u8> = (0..100_000u32).map(|i| (i % 7) as u8).collect();
    let mut stream = FileStream::new(contents.clone(), 100_000);
    let first = stream.next_chunk().unwrap();
    let rest = stream.read_to_end();
    assert_eq!(first.len() + rest.len(), 100_000);
    assert_eq!(rest[..], contents[32_768..]);
    assert_eq!(stream.read_to_end(), Vec::<u8>::new());
}

#[test]
fn hasher_fed_piece_by_piece_hashes_the_whole() {
    let mut hasher = Hasher::new();
    hasher.update(b"test");
    hasher.update(b"");
    hasher.update(b"ing\n");
    assert_eq!(hasher.finish(), SHA512::of(b"testing\n"));
    assert_eq!(Hasher::new().finish(), SHA512::of(b""));
    let mut other = Hasher::new();
    other.update(b"ing\n");
    other.update(b"test");
    assert_ne!(other.finish(), SHA512::of(b"testing\n"));
}

#[test]
fn identicon_is_a_png_that_depends_on_the_user() {
    let one = identicon_get_sync(&UserID::from_vec((0u8..32).collect()).unwrap()).unwrap();
    let two = identicon_get_sync(&UserID::from_vec((100u8..132).collect()).unwrap()).unwrap();
    assert_eq!(one[..8], [0x89, b'P', b'N', b'G', 0x0d, 0x0a, 0x1a, 0x0a]);
    // Width and height stand in the header, big end first.
    assert_eq!(one[16..24], [0, 0, 1, 164, 0, 0, 1, 164]);
    assert_ne!(one, two);
    assert_eq!(one, identicon_get_sync(&UserID::from_vec((0u8..32).collect()).unwrap()).unwrap());
}

#[test]
fn failures_map_to_http_statuses() {
    assert_eq!(Failure::InvalidInput(InvalidInput::UserID).http_status(), 400);
    assert_eq!(Failure::InvalidInput(InvalidInput::Signature).http_status(), 400);
    assert_eq!(Failure::InvalidInput(InvalidInput::Hash).http_status(), 400);
    assert_eq!(Failure::InvalidInput(InvalidInput::ItemTooLarge).http_status(), 400);
    assert_eq!(Failure::InvalidInput(InvalidInput::Unparseable).http_status(), 400);
    assert_eq!(Failure::InvalidInput(InvalidInput::Timestamp).http_status(), 400);
    assert_eq!(Failure::InvalidInput(InvalidInput::FileName).http_status(), 400);
    assert_eq!(Failure::InvalidInput(InvalidInput::FileSize).http_status(), 400);
    assert_eq!(Failure::InvalidInput(InvalidInput::ContentLength).http_status(), 400);
    assert_eq!(Failure::HashMismatch.http_status(), 400);
    assert_eq!(Failure::SignatureInvalid.http_status(), 403);
    assert_eq!(Failure::QuotaDenied(QuotaDenyReason::UnknownUser).http_status(), 403);
    assert_eq!(Failure::NotFound.http_status(), 404);
    assert_eq!(Failure::Duplicate.http_status(), 202);
    assert_eq!(Failure::Conflict.http_status(), 500);
    assert_eq!(Failure::Storage.http_status(), 500);
    assert_eq!(Failure::Integrity.http_status(), 500);
}

#[test]
fn internal_failures_are_those_answered_with_500() {
    assert!(Failure::Conflict.is_internal());
    assert!(Failure::Storage.is_internal());
    assert!(Failure::Integrity.is_internal());
    assert!(!Failure::NotFound.is_internal());
    assert!(!Failure::Duplicate.is_internal());
    assert!(!Failure::HashMismatch.is_internal());
    assert!(!Failure::InvalidInput(InvalidInput::FileName).is_internal());
}

#[test]
fn send_error_keeps_its_message() {
    let error = SendError::new("blob went away".to_string());
    assert_eq!(error.message(), "blob went away");
    assert_eq!(error.clone(), error);
}

#[test]
fn factory_builder_keeps_the_file() {
    let builder = FactoryBuilder::new("some.sqlite3".to_string());
    assert_eq!(builder.sqlite_file(), "some.sqlite3");
    let options = BackendOptions { sqlite_file: "other.sqlite3".to_string() };
    assert_eq!(options.factory_builder(), FactoryBuilder::new("other.sqlite3".to_string()));
}

#[test]
fn version_is_read_off_the_version_table() {
    assert_eq!(get_version(1, &[7]), Ok(7));
    assert_eq!(get_version(1, &[3]), Ok(3));
    assert_eq!(get_version(0, &[7]), Err(DatabaseFault::NoVersionTable));
    assert_eq!(get_version(1, &[]), Err(DatabaseFault::NoVersion));
    assert_eq!(get_version(1, &[7, 8]), Err(DatabaseFault::ManyVersions));
    assert_eq!(get_version(0, &[]), Err(DatabaseFault::NoVersionTable));
}

#[test]
fn older_schema_needs_an_upgrade() {
    assert_eq!(CURRENT_VERSION, 7);
    assert!(builder().db_needs_upgrade(6));
    assert!(builder().db_needs_upgrade(0));
    assert!(!builder().db_needs_upgrade(7));
    assert!(!builder().db_needs_upgrade(8));
}

#[test]
fn server_runs_only_on_a_current_database() {
    assert_eq!(builder().factory(true, Ok(7)), Ok(()));
    assert_eq!(builder().factory(true, Ok(8)), Ok(()));
    assert_eq!(builder().factory(true, Ok(6)), Err(DatabaseFault::NeedsUpgrade));
    assert_eq!(builder().factory(false, Ok(7)), Err(DatabaseFault::NotFound));
    assert_eq!(builder().factory(false, Err(DatabaseFault::NoVersion)), Err(DatabaseFault::NotFound));
    assert_eq!(builder().factory(true, Err(DatabaseFault::NoVersion)), Err(DatabaseFault::NoVersion));
}

#[test]
fn database_is_created_only_where_none_is() {
    assert_eq!(builder().db_create(false), Ok(()));
    assert_eq!(builder().db_create(true), Err(DatabaseFault::AlreadyExists));
}

#[test]
fn upgrade_wants_a_backup_and_a_database() {
    assert_eq!(builder().db_upgrade(true, true), Ok(()));
    assert_eq!(builder().db_upgrade(true, false), Err(DatabaseFault::NoBackup));
    assert_eq!(builder().db_upgrade(false, false), Err(DatabaseFault::NoBackup));
    assert_eq!(builder().db_upgrade(false, true), Err(DatabaseFault::NotFound));
}

#[test]
fn journal_mode_is_set_when_the_database_answers_wal() {
    assert!(builder().set_wal(&"wal".to_string()));
    assert!(!builder().set_wal(&"delete".to_string()));
    assert!(!builder().set_wal(&"WAL".to_string()));
    assert!(!builder().set_wal(&String::new()));
}

#[test]
fn prune_wants_a_dry_run_or_a_real_one() {
    assert_eq!(prune_opts(false, false, false, false), Err(DatabaseFault::NoPruneMode));
    assert_eq!(
        prune_opts(true, false, false, false),
        Ok(PruneOpts { dry_run: true, attachments: true, items: true })
    );
    assert_eq!(
        prune_opts(false, true, true, false),
        Ok(PruneOpts { dry_run: false, attachments: false, items: true })
    );
    assert_eq!(
        prune_opts(true, true, false, true),
        Ok(PruneOpts { dry_run: true, attachments: true, items: false })
    );
}

#[test]
fn request_with_if_none_match_is_not_modified() {
    assert_eq!(immutable_etag(true), CacheAction::NotModified);
    assert_eq!(immutable_etag(false), CacheAction::Forward);
}

#[test]
fn successful_get_is_marked_immutable() {
    assert!(marks_immutable(true, 200));
    assert!(marks_immutable(true, 204));
    assert!(marks_immutable(true, 299));
    assert!(!marks_immutable(true, 300));
    assert!(!marks_immutable(true, 199));
    assert!(!marks_immutable(true, 404));
    assert!(!marks_immutable(false, 200));
}

#[test]
fn server_binds_to_localhost_where_no_address_is_given() {
    assert_eq!(binds_or_default(vec![]), vec!["127.0.0.1:8080".to_string()]);
    assert_eq!(binds_or_default(vec!["[::1]:80".to_string()]), vec!["[::1]:80".to_string()]);
}

#[test]
fn timestamp_is_checked_only_where_a_drift_is_set() {
    assert_eq!(check_timestamp(None, 0, i64::MAX), Ok(()));
    assert_eq!(check_timestamp(Some(5), 100, 105), Ok(()));
    assert_eq!(check_timestamp(Some(5), 100, 95), Ok(()));
    assert_eq!(check_timestamp(Some(5), 100, 106), Err(InvalidInput::Timestamp));
    assert_eq!(check_timestamp(Some(5), 100, 94), Err(InvalidInput::Timestamp));
    assert_eq!(check_timestamp(Some(u64::MAX), i64::MIN, i64::MAX), Ok(()));
    assert_eq!(check_timestamp(Some(0), i64::MAX, i64::MIN), Err(InvalidInput::Timestamp));
}

#[test]
fn profile_supersedes_only_an_older_one_or_none() {
    assert!(profile_supersedes(None, 5));
    assert!(profile_supersedes(None, i64::MIN));
    assert!(profile_supersedes(Some(4), 5));
    assert!(!profile_supersedes(Some(5), 5));
    assert!(!profile_supersedes(Some(6), 5));
}

#[test]
fn quota_is_granted_to_server_users_and_those_they_follow() {
    assert_eq!(quota_check(true, false), None);
    assert_eq!(quota_check(false, true), None);
    assert_eq!(quota_check(true, true), None);
    assert_eq!(quota_check(false, false), Some(QuotaDenyReason::UnknownUser));
}

#[test]
fn upload_is_checked_for_size_and_then_for_hash() {
    let hash = SHA512::of(b"abc");
    let other = SHA512::of(b"abd");
    assert_eq!(check_upload(3, 3, &hash, &hash), Ok(()));
    assert_eq!(check_upload(3, 3, &hash, &other), Err(Failure::HashMismatch));
    assert_eq!(check_upload(3, 2, &hash, &hash), Err(Failure::InvalidInput(InvalidInput::ContentLength)));
    assert_eq!(check_upload(3, 4, &hash, &other), Err(Failure::InvalidInput(InvalidInput::ContentLength)));
}

#[test]
fn stored_size_must_be_the_declared_one() {
    assert_eq!(check_stored_size(5, 5), Ok(5));
    assert_eq!(check_stored_size(0, 0), Ok(0));
    assert_eq!(check_stored_size(5, 6), Err(Failure::Integrity));
    assert_eq!(check_stored_size(5, -5), Err(Failure::Integrity));
    assert_eq!(check_stored_size(u64::MAX, -1), Err(Failure::Integrity));
}

#[test]
fn headers_are_as_the_interface_asks() {
    assert_eq!(IMMUTABLE_ETAG, "\"immutable\"");
    assert_eq!(IMMUTABLE_CACHE_CONTROL, "public, max-age=31536000, immutable");
    assert_eq!(CORS_ALLOW_ORIGIN, "*");
    assert_eq!(CORS_EXPOSE_HEADERS, "*");
    assert_eq!(CORS_MAX_AGE, "86400");
    assert_eq!(CORS_ALLOW_METHODS, "OPTIONS, GET, PUT, HEAD");
}
