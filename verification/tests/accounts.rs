use impenetrable::db::{self, CreateOutcome, Store};

#[test]
fn create_account_writes_the_full_record() {
    let mut store = Store::new();
    let handles = vec!["deadbeef".to_string()];
    let outcome =
        store.create_account_with("alice", "Alice A.", "alice@example.org", "kh", "st", &handles);
    assert!(matches!(outcome, CreateOutcome::Success(h) if h == "deadbeef"));

    let info = store.user_info("alice").unwrap();
    assert_eq!(info.username, "alice");
    assert_eq!(info.balance, db::INITIAL_BALANCE);
    assert!(!info.admin);
    assert_eq!(store.get_userhash("alice").unwrap(), "deadbeef");
    assert_eq!(store.is_admin("alice"), Some(false));
    assert_eq!(store.history("alice").unwrap().len(), 0);
}

#[test]
fn create_account_twice_returns_user_exists() {
    // The second creation under the same username returns UserExists, no
    // second directory entry appears, and the original account is
    // untouched.
    let mut store = Store::new();
    let first = vec!["aaaa".to_string()];
    let second = vec!["bbbb".to_string()];
    assert!(matches!(
        store.create_account_with("alice", "Alice", "a@x.y", "kh1", "s1", &first),
        CreateOutcome::Success(_)
    ));
    assert_eq!(store.deposit("alice", 10), db::DepositStatus::Done);

    let outcome = store.create_account_with("alice", "Other", "o@x.y", "kh2", "s2", &second);
    assert!(matches!(outcome, CreateOutcome::UserExists));
    assert_eq!(store.get_userhash("alice").unwrap(), "aaaa");
    assert_eq!(store.user_info("alice").unwrap().balance, 510);
}

#[test]
fn create_account_retries_after_a_handle_collision() {
    // Under a forced handle collision the creation retries and succeeds on
    // the next attempt without duplicating directory entries.
    let mut store = Store::new();
    let first = vec!["cafe".to_string()];
    assert!(matches!(
        store.create_account_with("alice", "Alice", "a@x.y", "kh", "s", &first),
        CreateOutcome::Success(_)
    ));

    // "cafe" is already in use: the first candidate collides, the second
    // one is taken.
    let candidates = vec!["cafe".to_string(), "f00d".to_string()];
    let outcome = store.create_account_with("bob", "Bob", "b@x.y", "kh", "s", &candidates);
    assert!(matches!(outcome, CreateOutcome::Success(h) if h == "f00d"));
    assert_eq!(store.get_userhash("alice").unwrap(), "cafe");
    assert_eq!(store.get_userhash("bob").unwrap(), "f00d");
}

#[test]
fn create_account_exhausting_all_candidates_fails() {
    let mut store = Store::new();
    let first = vec!["cafe".to_string()];
    assert!(matches!(
        store.create_account_with("alice", "Alice", "a@x.y", "kh", "s", &first),
        CreateOutcome::Success(_)
    ));

    let candidates = vec!["cafe".to_string(), "cafe".to_string()];
    let outcome = store.create_account_with("bob", "Bob", "b@x.y", "kh", "s", &candidates);
    assert!(matches!(outcome, CreateOutcome::UnableToCreate));
    assert!(store.get_userhash("bob").is_none());
}

#[test]
fn create_account_draws_random_handles() {
    let mut store = Store::new();
    let outcome = store.create_account("alice", "Alice", "a@x.y", "kh", "s");
    let handle = match outcome {
        CreateOutcome::Success(h) => h,
        other => panic!("unexpected outcome: {:?}", other),
    };
    assert_eq!(handle.len(), 2 * db::USERHASH_SIZE);
    assert!(handle.chars().all(|c| c.is_ascii_hexdigit()));
    assert_eq!(store.get_userhash("alice").unwrap(), handle);
    assert!(matches!(
        store.create_account("alice", "Alice", "a@x.y", "kh", "s"),
        CreateOutcome::UserExists
    ));
}

#[test]
fn delete_account_removes_everything_and_is_idempotent() {
    let mut store = Store::new();
    let handles = vec!["aaaa".to_string()];
    assert!(matches!(
        store.create_account_with("alice", "Alice", "a@x.y", "kh", "s", &handles),
        CreateOutcome::Success(_)
    ));

    store.delete_account("alice");
    assert!(store.get_userhash("alice").is_none());
    assert!(store.user_info("alice").is_none());
    // Absence is not distinguished from success.
    store.delete_account("alice");
    assert!(store.get_userhash("alice").is_none());

    // The username and the handle are both free again.
    assert!(matches!(
        store.create_account_with("alice", "Alice", "a@x.y", "kh", "s", &handles),
        CreateOutcome::Success(_)
    ));
}

#[test]
fn validate_accepts_the_right_key_only() {
    let mut store = Store::new();
    let stored_hash = bcrypt::hash("sekrit", 4).unwrap();
    let handles = vec!["aaaa".to_string()];
    assert!(matches!(
        store.create_account_with("alice", "Alice", "a@x.y", &stored_hash, "s", &handles),
        CreateOutcome::Success(_)
    ));

    assert!(store.validate("alice", "sekrit"));
    assert!(!store.validate("alice", "wrong"));
    // A missing account gives the same observable result as a wrong key.
    assert!(!store.validate("nobody", "sekrit"));
}

#[test]
fn validate_treats_an_unreadable_hash_as_not_valid() {
    let mut store = Store::new();
    let handles = vec!["aaaa".to_string()];
    assert!(matches!(
        store.create_account_with("alice", "Alice", "a@x.y", "not-a-bcrypt-hash", "s", &handles),
        CreateOutcome::Success(_)
    ));
    assert!(!store.validate("alice", "anything"));
}

#[test]
fn key_layout_is_stable() {
    assert_eq!(db::uid_table(), "uids");
    assert_eq!(db::user_name("ab12"), "user:ab12:name");
    assert_eq!(db::user_balance("ab12"), "user:ab12:balance");
    assert_eq!(db::user_email("ab12"), "user:ab12:email");
    assert_eq!(db::user_cooldown("ab12"), "user:ab12:cd_lock");
    assert_eq!(db::user_history("ab12"), "user:ab12:history");
    assert_eq!(db::user_keyhash("ab12"), "user:ab12:keyhash");
    assert_eq!(db::user_salt("ab12"), "user:ab12:salt");
    assert_eq!(db::user_tokens("ab12"), "user:ab12:tokens");
    assert_eq!(db::user_username("ab12"), "user:ab12:username");
    assert_eq!(db::user_admin("ab12"), "user:ab12:admin");
}
