use diskuto::error::{Failure, InvalidInput};
use diskuto::hash::SHA512;
use diskuto::ingest::check_item;
use diskuto::keys::{Signature, UserID};
use diskuto::model::{
    File, Follow, Item, ItemRow, ItemType, PruneOpts, PruneReport, QuotaDenyReason, ReplyRef,
    ServerUser,
};
use diskuto::store::Store;
use diskuto::time::Timestamp;
use sodiumoxide::crypto::sign;

struct Author {
    id: UserID,
    secret: sign::SecretKey,
}

fn author(n: u8) -> Author {
    let (public, secret) = sign::keypair_from_seed(&sign::Seed([n; 32]));
    Author { id: UserID::from_bytes(&public.0).unwrap(), secret }
}

fn sign_bytes(who: &Author, bytes: &[u8]) -> Signature {
    Signature::from_bytes(&sign::sign_detached(bytes, &who.secret).to_bytes()).unwrap()
}

fn at(ms: i64) -> Timestamp {
    Timestamp { unix_utc_ms: ms }
}

fn profile(ms: i64, name: &str, follows: &[(&Author, &str)]) -> Item {
    Item {
        timestamp_ms_utc: ms,
        item_type: ItemType::Profile {
            display_name: name.to_string(),
            follows: follows
                .iter()
                .map(|(who, name)| Follow {
                    user: who.id.bytes().to_vec(),
                    display_name: name.to_string(),
                })
                .collect(),
        },
    }
}

fn post(ms: i64, files: Vec<File>) -> Item {
    Item { timestamp_ms_utc: ms, item_type: ItemType::Post { attachments: files } }
}

fn comment(ms: i64, to_user: &[u8], to_signature: &[u8]) -> Item {
    Item {
        timestamp_ms_utc: ms,
        item_type: ItemType::Comment {
            reply_to: ReplyRef { user_id: to_user.to_vec(), signature: to_signature.to_vec() },
        },
    }
}

fn file(name: &str, contents: &[u8]) -> File {
    File {
        name: name.to_string(),
        hash: SHA512::of(contents).bytes().to_vec(),
        size: contents.len() as u64,
    }
}

/// Sends an item whose bytes are `text`, and gives back its signature.
fn put(store: &mut Store, who: &Author, text: &str, item: Item) -> (Signature, Result<(), Failure>) {
    let bytes = text.as_bytes().to_vec();
    let signature = sign_bytes(who, &bytes);
    let result = store.put_item(&who.id, &signature, bytes, Some(item), at(1_000_000), None);
    (signature, result)
}

fn server_with(admin: &Author, on_homepage: bool) -> Store {
    let mut store = Store::new();
    let added = store.add_server_user(&ServerUser {
        user: admin.id.clone(),
        notes: "the admin".to_string(),
        on_homepage,
    });
    assert_eq!(added, Ok(()));
    store
}

const ALL: PruneOpts = PruneOpts { dry_run: false, attachments: true, items: true };

#[test]
fn first_profile_of_a_server_user_is_taken_and_shown() {
    let alice = author(1);
    let mut store = server_with(&alice, true);
    assert!(store.user_known(&alice.id));
    assert!(store.user_profile(&alice.id).is_none());
    let (signature, result) = put(&mut store, &alice, "alice's profile", profile(100, "Alice", &[]));
    assert_eq!(result, Ok(()));
    let found = store.user_profile(&alice.id).unwrap();
    assert_eq!(found.item_bytes, b"alice's profile".to_vec());
    assert_eq!(found.signature, signature);
    assert_eq!(found.timestamp, at(100));
    assert_eq!(found.received, at(1_000_000));
    let home = store.homepage_items(at(101));
    assert_eq!(home.len(), 1);
    assert_eq!(home[0].item.item_bytes, b"alice's profile".to_vec());
    assert_eq!(home[0].display_name, Some("Alice".to_string()));
    assert!(store.user_known(&alice.id));
}

#[test]
fn empty_store_knows_nobody_and_lists_nothing() {
    let alice = author(1);
    let store = Store::new();
    assert!(!store.user_known(&alice.id));
    assert!(store.server_user(&alice.id).is_none());
    assert!(store.server_users().is_empty());
    assert!(store.homepage_items(at(i64::MAX)).is_empty());
    assert!(store.user_items(&alice.id, at(i64::MAX)).is_empty());
    assert!(store.user_feed_items(&alice.id, at(i64::MAX)).is_empty());
    assert!(store.usage_by_user().is_empty());
}

#[test]
fn follow_gated_ingest() {
    let alice = author(1);
    let bob = author(2);
    let mut store = server_with(&alice, true);
    let (_, refused) = put(&mut store, &bob, "bob's post", post(50, vec![]));
    assert_eq!(refused, Err(Failure::QuotaDenied(QuotaDenyReason::UnknownUser)));
    assert_eq!(refused.unwrap_err().http_status(), 403);
    assert_eq!(store.quota_check_item(&bob.id, b"x", &post(50, vec![])), Some(QuotaDenyReason::UnknownUser));
    let (_, result) = put(&mut store, &alice, "alice follows bob", profile(100, "Alice", &[(&bob, "Bob")]));
    assert_eq!(result, Ok(()));
    assert!(store.user_known(&bob.id));
    assert_eq!(store.quota_check_item(&bob.id, b"x", &post(50, vec![])), None);
    let (signature, accepted) = put(&mut store, &bob, "bob's post", post(50, vec![]));
    assert_eq!(accepted, Ok(()));
    assert_eq!(store.user_item(&bob.id, &signature).unwrap().item_bytes, b"bob's post".to_vec());
}

#[test]
fn follow_by_a_user_who_is_no_server_user_makes_nobody_known() {
    let alice = author(1);
    let bob = author(2);
    let carol = author(3);
    let mut store = server_with(&alice, true);
    put(&mut store, &alice, "a", profile(100, "Alice", &[(&bob, "")])).1.unwrap();
    put(&mut store, &bob, "b", profile(100, "Bob", &[(&carol, "")])).1.unwrap();
    assert!(store.user_known(&bob.id));
    assert!(!store.user_known(&carol.id));
    let (_, refused) = put(&mut store, &carol, "c", post(1, vec![]));
    assert_eq!(refused, Err(Failure::QuotaDenied(QuotaDenyReason::UnknownUser)));
}

#[test]
fn get_item_returns_what_put_item_stored() {
    let alice = author(1);
    let mut store = server_with(&alice, false);
    let bytes: Vec<u8> = (0..=255u8).collect();
    let signature = sign_bytes(&alice, &bytes);
    let result = store.put_item(&alice.id, &signature, bytes.clone(), Some(post(7, vec![])), at(9), None);
    assert_eq!(result, Ok(()));
    assert!(store.user_item_exists(&alice.id, &signature));
    let row = store.user_item(&alice.id, &signature).unwrap();
    assert_eq!(
        row,
        ItemRow {
            user: alice.id.clone(),
            signature: signature.clone(),
            timestamp: at(7),
            received: at(9),
            item_bytes: bytes,
        }
    );
}

#[test]
fn item_of_exactly_the_largest_size_is_taken_and_one_byte_more_is_not() {
    let alice = author(1);
    let mut store = server_with(&alice, false);
    let largest = vec![b'x'; 32 * 1024];
    let signature = sign_bytes(&alice, &largest);
    assert_eq!(
        store.put_item(&alice.id, &signature, largest, Some(post(1, vec![])), at(2), None),
        Ok(())
    );
    let too_large = vec![b'x'; 32 * 1024 + 1];
    let signature = sign_bytes(&alice, &too_large);
    let refused = store.put_item(&alice.id, &signature, too_large, Some(post(1, vec![])), at(2), None);
    assert_eq!(refused, Err(Failure::InvalidInput(InvalidInput::ItemTooLarge)));
    assert_eq!(refused.unwrap_err().http_status(), 400);
    assert!(!store.user_item_exists(&alice.id, &signature));
}

#[test]
fn item_with_a_wrong_signature_is_refused() {
    let alice = author(1);
    let bob = author(2);
    let mut store = server_with(&alice, false);
    let bytes = b"alice says".to_vec();
    let forged = sign_bytes(&bob, &bytes);
    let refused = store.put_item(&alice.id, &forged, bytes, Some(post(1, vec![])), at(2), None);
    assert_eq!(refused, Err(Failure::SignatureInvalid));
    assert_eq!(refused.unwrap_err().http_status(), 403);
    assert!(!store.user_item_exists(&alice.id, &forged));
}

#[test]
fn bytes_that_are_no_record_are_refused() {
    let alice = author(1);
    let mut store = server_with(&alice, false);
    let bytes = b"gibberish".to_vec();
    let signature = sign_bytes(&alice, &bytes);
    let refused = store.put_item(&alice.id, &signature, bytes, None, at(2), None);
    assert_eq!(refused, Err(Failure::InvalidInput(InvalidInput::Unparseable)));
    assert!(!store.user_item_exists(&alice.id, &signature));
}

#[test]
fn item_sent_twice_is_a_duplicate_and_stored_once() {
    let alice = author(1);
    let mut store = server_with(&alice, false);
    let (signature, first) = put(&mut store, &alice, "once", post(5, vec![]));
    assert_eq!(first, Ok(()));
    let (_, second) = put(&mut store, &alice, "once", post(5, vec![]));
    assert_eq!(second, Err(Failure::Duplicate));
    assert_eq!(second.unwrap_err().http_status(), 202);
    assert_eq!(store.user_items(&alice.id, at(6)).len(), 1);
    assert!(store.user_item_exists(&alice.id, &signature));
}

#[test]
fn server_user_added_twice_is_a_conflict() {
    let alice = author(1);
    let mut store = server_with(&alice, true);
    let again = store.add_server_user(&ServerUser {
        user: alice.id.clone(),
        notes: "again".to_string(),
        on_homepage: false,
    });
    assert_eq!(again, Err(Failure::Conflict));
    assert_eq!(again.unwrap_err().http_status(), 500);
    let users = store.server_users();
    assert_eq!(users.len(), 1);
    assert_eq!(users[0].notes, "the admin");
    assert!(users[0].on_homepage);
    assert_eq!(store.server_user(&alice.id), Some(users[0].clone()));
}

#[test]
fn removed_server_user_is_no_longer_known() {
    let alice = author(1);
    let bob = author(2);
    let mut store = server_with(&alice, true);
    put(&mut store, &alice, "a", profile(1, "Alice", &[(&bob, "")])).1.unwrap();
    assert!(store.user_known(&bob.id));
    assert!(!store.remove_server_user(&bob.id));
    assert!(store.remove_server_user(&alice.id));
    assert!(!store.user_known(&alice.id));
    assert!(!store.user_known(&bob.id));
    assert!(store.server_users().is_empty());
    assert!(store.user_profile(&alice.id).is_none());
}

#[test]
fn profile_replacement() {
    let alice = author(1);
    let x = author(10);
    let y = author(11);
    let z = author(12);
    let mut store = server_with(&alice, true);
    put(&mut store, &alice, "first profile", profile(100, "One", &[(&x, "X")])).1.unwrap();
    assert!(store.user_known(&x.id));
    let (second, result) = put(&mut store, &alice, "second profile", profile(200, "Two", &[(&y, "Y")]));
    assert_eq!(result, Ok(()));
    assert!(!store.user_known(&x.id));
    assert!(store.user_known(&y.id));
    let (early, result) = put(&mut store, &alice, "early profile", profile(50, "Zero", &[(&z, "Z")]));
    assert_eq!(result, Ok(()));
    assert!(store.user_item_exists(&alice.id, &early));
    assert_eq!(store.user_item(&alice.id, &early).unwrap().item_bytes, b"early profile".to_vec());
    assert!(!store.user_known(&z.id));
    assert!(!store.user_known(&x.id));
    assert!(store.user_known(&y.id));
    let latest = store.user_profile(&alice.id).unwrap();
    assert_eq!(latest.signature, second);
    assert_eq!(latest.item_bytes, b"second profile".to_vec());
    let home = store.homepage_items(at(1000));
    assert_eq!(home.len(), 3);
    assert!(home.iter().all(|row| row.display_name == Some("Two".to_string())));
}

#[test]
fn profile_of_the_same_time_does_not_replace() {
    let alice = author(1);
    let x = author(10);
    let y = author(11);
    let mut store = server_with(&alice, true);
    let (first, _) = put(&mut store, &alice, "first", profile(100, "First", &[(&x, "")]));
    put(&mut store, &alice, "second", profile(100, "Second", &[(&y, "")])).1.unwrap();
    assert!(store.user_known(&x.id));
    assert!(!store.user_known(&y.id));
    assert_eq!(store.user_profile(&alice.id).unwrap().signature, first);
}

#[test]
fn empty_follow_list_in_a_newer_profile_replaces_prior_follows() {
    let alice = author(1);
    let bob = author(2);
    let carol = author(3);
    let mut store = server_with(&alice, true);
    put(&mut store, &alice, "first profile", profile(100, "Alice", &[(&bob, "B"), (&carol, "C")])).1.unwrap();
    assert!(store.user_known(&bob.id) && store.user_known(&carol.id));
    put(&mut store, &alice, "second profile", profile(101, "Alice", &[])).1.unwrap();
    assert!(!store.user_known(&bob.id));
    assert!(!store.user_known(&carol.id));
    assert!(store.user_known(&alice.id));
}

#[test]
fn user_followed_twice_in_one_profile_last_name_wins() {
    let alice = author(1);
    let bob = author(2);
    let mut store = server_with(&alice, true);
    put(&mut store, &alice, "p", profile(100, "Alice", &[(&bob, "first"), (&bob, "second")]))
        .1
        .unwrap();
    put(&mut store, &bob, "hello", post(150, vec![])).1.unwrap();
    let feed = store.user_feed_items(&alice.id, at(1000));
    assert_eq!(feed.len(), 2);
    assert_eq!(feed[0].item.item_bytes, b"hello".to_vec());
    assert_eq!(feed[0].display_name, Some("second".to_string()));
}

#[test]
fn listings_are_newest_first_and_older_than_before() {
    let alice = author(1);
    let mut store = server_with(&alice, true);
    put(&mut store, &alice, "t30", post(30, vec![])).1.unwrap();
    put(&mut store, &alice, "t10", post(10, vec![])).1.unwrap();
    put(&mut store, &alice, "t20", post(20, vec![])).1.unwrap();
    put(&mut store, &alice, "t40", post(40, vec![])).1.unwrap();
    let times = |rows: Vec<ItemRow>| -> Vec<i64> {
        rows.iter().map(|row| row.timestamp.unix_utc_ms).collect()
    };
    assert_eq!(times(store.user_items(&alice.id, at(41))), vec![40, 30, 20, 10]);
    assert_eq!(times(store.user_items(&alice.id, at(40))), vec![30, 20, 10]);
    assert_eq!(times(store.user_items(&alice.id, at(10))), vec![]);
    let home: Vec<i64> =
        store.homepage_items(at(31)).iter().map(|row| row.item.timestamp.unix_utc_ms).collect();
    assert_eq!(home, vec![30, 20, 10]);
    let feed: Vec<i64> = store
        .user_feed_items(&alice.id, at(21))
        .iter()
        .map(|row| row.item.timestamp.unix_utc_ms)
        .collect();
    assert_eq!(feed, vec![20, 10]);
}

#[test]
fn homepage_shows_only_server_users_flagged_for_it() {
    let alice = author(1);
    let bob = author(2);
    let carol = author(3);
    let mut store = server_with(&alice, true);
    store
        .add_server_user(&ServerUser { user: bob.id.clone(), notes: String::new(), on_homepage: false })
        .unwrap();
    put(&mut store, &alice, "a", profile(1, "Alice", &[(&carol, "")])).1.unwrap();
    put(&mut store, &bob, "b", post(2, vec![])).1.unwrap();
    put(&mut store, &carol, "c", post(3, vec![])).1.unwrap();
    let home = store.homepage_items(at(100));
    assert_eq!(home.len(), 1);
    assert_eq!(home[0].item.user, alice.id);
    assert_eq!(store.user_items(&bob.id, at(100)).len(), 1);
    assert_eq!(store.user_items(&carol.id, at(100)).len(), 1);
}

#[test]
fn feed_holds_own_items_and_those_of_followed_users_with_names() {
    let alice = author(1);
    let bob = author(2);
    let carol = author(3);
    let dave = author(4);
    let mut store = server_with(&alice, true);
    put(
        &mut store,
        &alice,
        "a",
        profile(10, "Alice", &[(&bob, "Bobby"), (&carol, "  "), (&dave, "")]),
    )
    .1
    .unwrap();
    put(&mut store, &bob, "b-profile", profile(20, "Robert", &[])).1.unwrap();
    put(&mut store, &carol, "c-profile", profile(30, "Carol", &[])).1.unwrap();
    put(&mut store, &dave, "d-post", post(40, vec![])).1.unwrap();
    let feed = store.user_feed_items(&alice.id, at(100));
    let shown: Vec<(Vec<u8>, Option<String>)> =
        feed.into_iter().map(|row| (row.item.item_bytes, row.display_name)).collect();
    assert_eq!(
        shown,
        vec![
            (b"d-post".to_vec(), None),
            (b"c-profile".to_vec(), Some("Carol".to_string())),
            (b"b-profile".to_vec(), Some("Bobby".to_string())),
            (b"a".to_vec(), Some("Alice".to_string())),
        ]
    );
    let bobs = store.user_feed_items(&bob.id, at(100));
    assert_eq!(bobs.len(), 1);
    assert_eq!(bobs[0].display_name, Some("Robert".to_string()));
}

#[test]
fn replies_are_listed_for_the_item_they_answer() {
    let alice = author(1);
    let bob = author(2);
    let mut store = server_with(&alice, true);
    put(&mut store, &alice, "a", profile(1, "Alice", &[(&bob, "")])).1.unwrap();
    let (target, _) = put(&mut store, &alice, "question", post(10, vec![]));
    let (other, _) = put(&mut store, &alice, "other", post(11, vec![]));
    put(&mut store, &bob, "answer 1", comment(20, alice.id.bytes(), target.bytes())).1.unwrap();
    put(&mut store, &bob, "answer 2", comment(30, alice.id.bytes(), target.bytes())).1.unwrap();
    put(&mut store, &alice, "elsewhere", comment(25, alice.id.bytes(), other.bytes())).1.unwrap();
    let replies = store.reply_items(&alice.id, &target, at(100));
    let bytes: Vec<Vec<u8>> = replies.into_iter().map(|row| row.item_bytes).collect();
    assert_eq!(bytes, vec![b"answer 2".to_vec(), b"answer 1".to_vec()]);
    assert_eq!(store.reply_items(&alice.id, &target, at(30)).len(), 1);
    assert_eq!(store.reply_items(&alice.id, &other, at(100)).len(), 1);
    assert!(store.reply_items(&bob.id, &target, at(100)).is_empty());
}

#[test]
fn comment_with_a_malformed_target_is_refused() {
    let alice = author(1);
    let mut store = server_with(&alice, true);
    let (signature, refused) = put(&mut store, &alice, "c1", comment(5, &[1u8; 31], &[2u8; 64]));
    assert_eq!(refused, Err(Failure::InvalidInput(InvalidInput::UserID)));
    assert!(!store.user_item_exists(&alice.id, &signature));
    let (_, refused) = put(&mut store, &alice, "c2", comment(5, &[1u8; 32], &[2u8; 63]));
    assert_eq!(refused, Err(Failure::InvalidInput(InvalidInput::Signature)));
    let (_, refused) = put(&mut store, &alice, "c3", comment(5, &[], &[]));
    assert_eq!(refused, Err(Failure::InvalidInput(InvalidInput::UserID)));
    assert!(store.user_items(&alice.id, at(100)).is_empty());
}

#[test]
fn faulty_files_are_refused() {
    let alice = author(1);
    let mut store = server_with(&alice, true);
    let good = file("good.txt", b"good");
    let mut slash = file("a/b.txt", b"x");
    let (signature, refused) = put(&mut store, &alice, "f1", post(5, vec![good.clone(), slash.clone()]));
    assert_eq!(refused, Err(Failure::InvalidInput(InvalidInput::FileName)));
    assert!(!store.user_item_exists(&alice.id, &signature));
    assert!(store.get_attachment_meta(&alice.id, &signature, "good.txt").is_none());
    slash.name = "a\\b.txt".to_string();
    let (_, refused) = put(&mut store, &alice, "f2", post(5, vec![slash]));
    assert_eq!(refused, Err(Failure::InvalidInput(InvalidInput::FileName)));
    let mut huge = file("huge", b"x");
    huge.size = i64::MAX as u64 + 1;
    let (_, refused) = put(&mut store, &alice, "f3", post(5, vec![huge.clone()]));
    assert_eq!(refused, Err(Failure::InvalidInput(InvalidInput::FileSize)));
    huge.size = i64::MAX as u64;
    let (_, taken) = put(&mut store, &alice, "f4", post(5, vec![huge]));
    assert_eq!(taken, Ok(()));
    let mut short = file("short", b"x");
    short.hash.pop();
    let (_, refused) = put(&mut store, &alice, "f5", post(5, vec![short]));
    assert_eq!(refused, Err(Failure::InvalidInput(InvalidInput::Hash)));
}

#[test]
fn attachment_meta_says_whether_contents_are_there() {
    let alice = author(1);
    let mut store = server_with(&alice, true);
    let contents = b"a picture".to_vec();
    let (signature, _) = put(&mut store, &alice, "post", post(5, vec![file("pic.png", &contents)]));
    let meta = store.get_attachment_meta(&alice.id, &signature, "pic.png").unwrap();
    assert!(!meta.exists);
    assert_eq!(meta.size, 9);
    assert_eq!(meta.hash, SHA512::of(&contents));
    assert!(!meta.quota_exceeded);
    assert!(store.get_contents(&alice.id, &signature, "pic.png").unwrap().is_none());
    assert!(store.get_attachment_meta(&alice.id, &signature, "other.png").is_none());
    assert_eq!(store.save_attachment(9, &SHA512::of(&contents), &contents), Ok(()));
    assert!(store.get_attachment_meta(&alice.id, &signature, "pic.png").unwrap().exists);
    let mut stream = store.get_contents(&alice.id, &signature, "pic.png").unwrap().unwrap();
    assert_eq!(stream.size(), 9);
    assert_eq!(stream.read_to_end(), contents);
}

#[test]
fn attachment_dedup() {
    let alice = author(1);
    let bob = author(2);
    let mut store = server_with(&alice, true);
    put(&mut store, &alice, "a", profile(1, "Alice", &[(&bob, "")])).1.unwrap();
    let contents = b"the same file".to_vec();
    let hash = SHA512::of(&contents);
    let (item_a, _) = put(&mut store, &alice, "post a", post(5, vec![file("one.bin", &contents)]));
    let (item_b, _) = put(&mut store, &bob, "post b", post(6, vec![file("two.bin", &contents)]));
    assert_eq!(store.save_attachment(contents.len() as u64, &hash, &contents), Ok(()));
    let mut from_b = store.get_contents(&bob.id, &item_b, "two.bin").unwrap().unwrap();
    assert_eq!(from_b.read_to_end(), contents);
    assert_eq!(store.save_attachment(contents.len() as u64, &hash, &contents), Ok(()));
    let mut from_a = store.get_contents(&alice.id, &item_a, "one.bin").unwrap().unwrap();
    assert_eq!(from_a.read_to_end(), contents);
    // With nobody left to declare it, one row is there to be reclaimed.
    assert!(store.remove_server_user(&alice.id));
    store.prune(PruneOpts { dry_run: false, attachments: false, items: true });
    let report = store.prune(PruneOpts { dry_run: false, attachments: true, items: false });
    assert_eq!(report.attachments_deleted, 1);
    assert_eq!(report.bytes_reclaimed, contents.len() as u64);
}

#[test]
fn hash_mismatch() {
    let alice = author(1);
    let mut store = server_with(&alice, true);
    let right = b"right bytes".to_vec();
    let wrong = b"wrong bytes".to_vec();
    let hash = SHA512::of(&right);
    let (signature, _) = put(&mut store, &alice, "post", post(5, vec![file("f", &right)]));
    let refused = store.save_attachment(wrong.len() as u64, &hash, &wrong);
    assert_eq!(refused, Err(Failure::HashMismatch));
    assert_eq!(refused.unwrap_err().http_status(), 400);
    assert!(!store.get_attachment_meta(&alice.id, &signature, "f").unwrap().exists);
    let nothing = store.prune(PruneOpts { dry_run: true, attachments: true, items: false });
    assert_eq!(nothing.attachments_deleted, 0);
    assert_eq!(store.save_attachment(right.len() as u64, &hash, &right), Ok(()));
    let mut stream = store.get_contents(&alice.id, &signature, "f").unwrap().unwrap();
    assert_eq!(stream.read_to_end(), right);
}

#[test]
fn contents_of_another_size_than_declared_are_refused() {
    let mut store = Store::new();
    let contents = b"12345".to_vec();
    let refused = store.save_attachment(4, &SHA512::of(&contents), &contents);
    assert_eq!(refused, Err(Failure::InvalidInput(InvalidInput::ContentLength)));
    let refused = store.save_attachment(6, &SHA512::of(&contents), &contents);
    assert_eq!(refused, Err(Failure::InvalidInput(InvalidInput::ContentLength)));
    let nothing = store.prune(PruneOpts { dry_run: true, attachments: true, items: false });
    assert_eq!(nothing.attachments_deleted, 0);
}

#[test]
fn contents_that_no_item_declares_are_stored_and_can_be_reclaimed() {
    let mut store = Store::new();
    let contents = b"12345".to_vec();
    let stored = store.save_attachment_under(vec![1u8; 31], 5, &SHA512::of(&contents), &contents);
    assert_eq!(stored, Ok(()));
    let report = store.prune(PruneOpts { dry_run: true, attachments: true, items: false });
    assert_eq!(report.attachments_deleted, 1);
    assert_eq!(report.bytes_reclaimed, 5);
}

#[test]
fn stored_contents_of_another_size_than_the_item_declares_are_an_integrity_failure() {
    let alice = author(1);
    let mut store = server_with(&alice, true);
    let contents = b"five!".to_vec();
    let mut declared = file("f", &contents);
    declared.size = 6;
    let (signature, _) = put(&mut store, &alice, "post", post(5, vec![declared]));
    store.save_attachment(5, &SHA512::of(&contents), &contents).unwrap();
    let failed = store.get_contents(&alice.id, &signature, "f");
    assert_eq!(failed.as_ref().err(), Some(&Failure::Integrity));
    assert_eq!(failed.unwrap_err().http_status(), 500);
}

#[test]
fn items_of_an_unfollowed_user_are_hidden_and_then_pruned() {
    let alice = author(1);
    let bob = author(2);
    let mut store = server_with(&alice, true);
    put(&mut store, &alice, "a1", profile(1, "Alice", &[(&bob, "Bob")])).1.unwrap();
    let contents = b"bob's file".to_vec();
    let hash = SHA512::of(&contents);
    let (bobs, _) = put(&mut store, &bob, "bob's post", post(5, vec![file("f", &contents)]));
    put(&mut store, &bob, "bob's profile", profile(6, "Bob", &[(&alice, "")])).1.unwrap();
    store.save_attachment(contents.len() as u64, &hash, &contents).unwrap();
    assert_eq!(store.user_items(&bob.id, at(100)).len(), 2);
    // Alice stops following Bob.
    put(&mut store, &alice, "a2", profile(2, "Alice", &[])).1.unwrap();
    assert!(store.user_item_exists(&bob.id, &bobs));
    assert!(store.user_item(&bob.id, &bobs).is_none());
    assert!(store.user_profile(&bob.id).is_none());
    assert!(store.user_items(&bob.id, at(100)).is_empty());
    // Bob follows Alice, so his feed still shows her items, and none of his.
    let feed = store.user_feed_items(&bob.id, at(100));
    assert_eq!(feed.len(), 2);
    assert!(feed.iter().all(|row| row.item.user == alice.id));
    assert!(store.get_contents(&bob.id, &bobs, "f").unwrap().is_none());
    assert!(store.get_attachment_meta(&bob.id, &bobs, "f").is_none());
    assert_eq!(store.user_feed_items(&alice.id, at(100)).len(), 2);
    let dry = store.prune(PruneOpts { dry_run: true, attachments: true, items: true });
    assert_eq!(
        dry,
        PruneReport {
            items_deleted: 2,
            attachments_deleted: 0,
            bytes_reclaimed: ("bob's post".len() + "bob's profile".len()) as u64,
        }
    );
    assert!(store.user_item_exists(&bob.id, &bobs));
    let report = store.prune(PruneOpts { dry_run: false, attachments: false, items: true });
    assert_eq!(report.items_deleted, 2);
    assert_eq!(report.attachments_deleted, 0);
    assert!(!store.user_item_exists(&bob.id, &bobs));
    assert_eq!(store.user_items(&alice.id, at(100)).len(), 2);
    let report = store.prune(PruneOpts { dry_run: false, attachments: true, items: false });
    assert_eq!(
        report,
        PruneReport { items_deleted: 0, attachments_deleted: 1, bytes_reclaimed: contents.len() as u64 }
    );
    let again = store.prune(ALL);
    assert_eq!(again, PruneReport { items_deleted: 0, attachments_deleted: 0, bytes_reclaimed: 0 });
}

#[test]
fn prune_with_both_kinds_deletes_unused_contents_first() {
    let alice = author(1);
    let bob = author(2);
    let mut store = server_with(&alice, true);
    put(&mut store, &alice, "a1", profile(1, "Alice", &[(&bob, "Bob")])).1.unwrap();
    let contents = b"bob's file".to_vec();
    put(&mut store, &bob, "bob's post", post(5, vec![file("f", &contents)])).1.unwrap();
    store.save_attachment(contents.len() as u64, &SHA512::of(&contents), &contents).unwrap();
    put(&mut store, &alice, "a2", profile(2, "Alice", &[])).1.unwrap();
    let report = store.prune(ALL);
    assert_eq!(report.items_deleted, 1);
    assert_eq!(report.attachments_deleted, 0);
    let report = store.prune(ALL);
    assert_eq!(report.items_deleted, 0);
    assert_eq!(report.attachments_deleted, 1);
}

#[test]
fn prune_that_is_asked_for_nothing_does_nothing() {
    let alice = author(1);
    let mut store = Store::new();
    store.save_attachment(1, &SHA512::of(b"x"), b"x").unwrap();
    let report = store.prune(PruneOpts { dry_run: false, attachments: false, items: false });
    assert_eq!(report, PruneReport { items_deleted: 0, attachments_deleted: 0, bytes_reclaimed: 0 });
    let report = store.prune(PruneOpts { dry_run: true, attachments: true, items: true });
    assert_eq!(report.attachments_deleted, 1);
    assert!(!store.user_known(&alice.id));
}

#[test]
fn usage_by_user_sums_items_and_declared_files_largest_first() {
    let alice = author(1);
    let bob = author(2);
    let mut store = server_with(&alice, true);
    put(&mut store, &alice, "alice!", profile(1, "Alice", &[(&bob, "")])).1.unwrap();
    put(&mut store, &bob, "bob", post(2, vec![file("a", &[0u8; 100]), file("b", &[1u8; 50])])).1.unwrap();
    put(&mut store, &bob, "bob 2", post(3, vec![file("a", &[0u8; 100])])).1.unwrap();
    let usage = store.usage_by_user();
    assert_eq!(usage.len(), 2);
    assert_eq!(usage[0].user_id, bob.id);
    assert_eq!(usage[0].display_name, None);
    assert_eq!(usage[0].items_bytes, 8);
    assert_eq!(usage[0].attachments_bytes, 250);
    assert_eq!(usage[0].total_bytes, 258);
    assert_eq!(usage[1].user_id, alice.id);
    assert_eq!(usage[1].display_name, Some("Alice".to_string()));
    assert_eq!(usage[1].items_bytes, 6);
    assert_eq!(usage[1].attachments_bytes, 0);
    assert_eq!(usage[1].total_bytes, 6);
}

#[test]
fn usage_totals_stop_at_the_largest_number() {
    let alice = author(1);
    let mut store = server_with(&alice, true);
    let mut big = file("big", b"x");
    big.size = i64::MAX as u64;
    let mut big2 = file("big2", b"y");
    big2.size = i64::MAX as u64;
    let mut big3 = file("big3", b"z");
    big3.size = 2;
    put(&mut store, &alice, "p", post(1, vec![big, big2, big3])).1.unwrap();
    let usage = store.usage_by_user();
    assert_eq!(usage[0].attachments_bytes, u64::MAX);
    assert_eq!(usage[0].items_bytes, 1);
    assert_eq!(usage[0].total_bytes, u64::MAX);
}

#[test]
fn server_users_are_listed_by_homepage_flag_and_key() {
    let mut store = Store::new();
    let user = |n: u8| UserID::from_vec(vec![n; 32]).unwrap();
    for (n, on_homepage) in [(5u8, true), (9, false), (1, true), (3, false), (7, true)] {
        store
            .add_server_user(&ServerUser { user: user(n), notes: format!("{}", n), on_homepage })
            .unwrap();
    }
    let listed: Vec<(bool, String)> =
        store.server_users().into_iter().map(|s| (s.on_homepage, s.notes)).collect();
    assert_eq!(
        listed,
        vec![
            (false, "3".to_string()),
            (false, "9".to_string()),
            (true, "1".to_string()),
            (true, "5".to_string()),
            (true, "7".to_string()),
        ]
    );
    assert!(store.remove_server_user(&user(9)));
    assert_eq!(store.server_users().len(), 4);
    assert_eq!(store.server_users()[0].notes, "3");
    assert_eq!(store.server_users()[1].notes, "1");
}

#[test]
fn all_items_are_listed_by_author_and_signature_behind_the_cursor() {
    let alice = author(1);
    let bob = author(2);
    let mut store = server_with(&alice, true);
    put(&mut store, &alice, "a", profile(1, "Alice", &[(&bob, "")])).1.unwrap();
    for (who, text, ms) in [(&bob, "b1", 5), (&alice, "a1", 6), (&bob, "b2", 7), (&alice, "a2", 8)] {
        put(&mut store, who, text, post(ms, vec![])).1.unwrap();
    }
    put(&mut store, &alice, "a3", profile(9, "Alice", &[])).1.unwrap();
    let all = store.all_items(&None, &None);
    assert_eq!(all.len(), 6);
    let keys: Vec<(Vec<u8>, Vec<u8>)> =
        all.iter().map(|row| (row.user.bytes().to_vec(), row.signature.bytes().to_vec())).collect();
    let mut sorted = keys.clone();
    sorted.sort();
    assert_eq!(keys, sorted);
    let behind = store.all_items(&Some(all[2].user.clone()), &Some(all[2].signature.clone()));
    assert_eq!(behind, all[3..].to_vec());
    let last = store.all_items(&Some(all[5].user.clone()), &Some(all[5].signature.clone()));
    assert!(last.is_empty());
    assert_eq!(store.all_items(&Some(all[2].user.clone()), &None), all);
    assert_eq!(store.all_items(&None, &Some(all[2].signature.clone())), all);
}

#[test]
fn item_signed_too_far_from_now_is_refused_where_the_server_bounds_the_drift() {
    let alice = author(1);
    let mut store = server_with(&alice, false);
    let mut send = |text: &str, signed: i64, drift: Option<u64>| {
        let bytes = text.as_bytes().to_vec();
        let signature = sign_bytes(&alice, &bytes);
        store.put_item(&alice.id, &signature, bytes, Some(post(signed, vec![])), at(10_000), drift)
    };
    assert_eq!(send("late", 8_999, Some(1_000)), Err(Failure::InvalidInput(InvalidInput::Timestamp)));
    assert_eq!(send("early", 11_001, Some(1_000)), Err(Failure::InvalidInput(InvalidInput::Timestamp)));
    assert_eq!(send("just late", 9_000, Some(1_000)), Ok(()));
    assert_eq!(send("just early", 11_000, Some(1_000)), Ok(()));
    assert_eq!(send("exact", 10_000, Some(0)), Ok(()));
    assert_eq!(send("any time", i64::MIN, None), Ok(()));
    assert_eq!(send("far", i64::MAX, Some(u64::MAX)), Ok(()));
    assert_eq!(send("far back", i64::MIN, Some(1)), Err(Failure::InvalidInput(InvalidInput::Timestamp)));
}

#[test]
fn arriving_item_is_checked_for_size_signature_record_and_time_in_that_order() {
    let alice = author(1);
    let bob = author(2);
    let good = b"an item".to_vec();
    let signature = sign_bytes(&alice, &good);
    let parsed = Some(post(100, vec![]));
    assert_eq!(check_item(&alice.id, &signature, &good, &parsed, at(100), Some(0)), Ok(()));
    assert_eq!(check_item(&alice.id, &signature, &good, &parsed, at(0), None), Ok(()));
    assert_eq!(
        check_item(&alice.id, &signature, &good, &parsed, at(99), Some(0)),
        Err(Failure::InvalidInput(InvalidInput::Timestamp))
    );
    assert_eq!(
        check_item(&alice.id, &signature, &good, &None, at(99), Some(0)),
        Err(Failure::InvalidInput(InvalidInput::Unparseable))
    );
    assert_eq!(
        check_item(&bob.id, &signature, &good, &None, at(99), Some(0)),
        Err(Failure::SignatureInvalid)
    );
    let large = vec![0u8; 32 * 1024 + 1];
    assert_eq!(
        check_item(&bob.id, &signature, &large, &None, at(99), Some(0)),
        Err(Failure::InvalidInput(InvalidInput::ItemTooLarge))
    );
}

#[test]
fn upload_succeeds_again_and_again_whatever_failed_before() {
    let mut store = Store::new();
    let contents = b"some bytes".to_vec();
    let hash = SHA512::of(&contents);
    for _ in 0..3 {
        assert_eq!(store.save_attachment(9, &hash, &contents), Err(Failure::InvalidInput(InvalidInput::ContentLength)));
        assert_eq!(store.save_attachment(10, &hash, b"other byte"), Err(Failure::HashMismatch));
        assert_eq!(store.save_attachment(10, &hash, &contents), Ok(()));
    }
    assert_eq!(store.save_attachment(0, &SHA512::of(b""), b""), Ok(()));
    let report = store.prune(PruneOpts { dry_run: true, attachments: true, items: false });
    assert_eq!(report.attachments_deleted, 2);
    assert_eq!(report.bytes_reclaimed, 10);
}
