use fs_agent::store::{
    cwd_slug, fnv1a, join_path, newest_first, pruned, session_id, SessionStore, StoredSession,
};

#[test]
fn fnv1a_matches_the_published_values() {
    assert_eq!(fnv1a(b""), 0xcbf2_9ce4_8422_2325);
    assert_eq!(fnv1a(b"a"), 0xaf63_dc4c_8601_ec8c);
}

#[test]
fn a_bucket_name_is_readable_and_hashed() {
    assert_eq!(cwd_slug("/home/u/proj"), "-home-u-proj-143becae573131b5");
    // Anything but an ASCII letter or digit becomes a dash; the hash still
    // sees the real bytes.
    assert_eq!(cwd_slug("/tmp/中文"), "-tmp----29fd55c4069f7628");
    let long = format!("/{}", "a".repeat(100));
    let slug = cwd_slug(&long);
    assert_eq!(slug.len(), 64 + 1 + 16);
    assert!(slug.starts_with(&"a".repeat(64)));
}

#[test]
fn paths_join_with_one_separator() {
    assert_eq!(join_path("root", "x"), "root/x");
    assert_eq!(join_path("root/", "x"), "root/x");
    assert_eq!(join_path("", "x"), "x");
    let store = SessionStore::new("/store".to_owned());
    let session = store.session_in("/home/u/proj", "20240101T000000Z-00000abc".to_owned());
    assert_eq!(session.dir, "/store/-home-u-proj-143becae573131b5/20240101T000000Z-00000abc");
    assert_eq!(session.log_path, format!("{}/log.jsonl", session.dir));
    assert_eq!(session.outputs_dir, format!("{}/outputs", session.dir));
}

#[test]
fn a_session_id_is_its_stamp_and_eight_hex_digits() {
    assert_eq!(session_id("20240101T000000Z", 0xabc), "20240101T000000Z-00000abc");
    assert_eq!(session_id("s", u32::MAX), "s-ffffffff");
}

fn found(modified: u64, id: &str) -> (u64, StoredSession) {
    (modified, StoredSession::at(format!("/b/{id}"), id.to_owned()))
}

#[test]
fn sessions_are_offered_newest_first_and_a_prune_keeps_the_newest() {
    let order = newest_first(vec![found(5, "b"), found(9, "a"), found(5, "c"), found(1, "z")]);
    let ids: Vec<&str> = order.iter().map(|(_, s)| s.id.as_str()).collect();
    assert_eq!(ids, vec!["a", "c", "b", "z"]);
    let removed = pruned(order, 2);
    let ids: Vec<&str> = removed.iter().map(|s| s.id.as_str()).collect();
    assert_eq!(ids, vec!["b", "z"]);
    assert!(pruned(newest_first(vec![found(1, "x")]), 3).is_empty());
}
