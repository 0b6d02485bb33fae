use impenetrable::db::{DepositStatus, Store, TransactionStatus, TransferError, WithdrawStatus};

/// A store with one freshly created account under `username`, backed by the
/// given handle. Every new account starts at the initial balance of 500.
fn with_account(store: &mut Store, username: &str, handle: &str) {
    let handles = vec![handle.to_string()];
    let outcome = store.create_account_with(username, username, "a@b.c", "kh", "s", &handles);
    assert!(
        matches!(outcome, impenetrable::db::CreateOutcome::Success(h) if h == handle),
        "account creation failed for {}",
        username
    );
}

fn balance_of(store: &Store, username: &str) -> u32 {
    store.user_info(username).expect("account must exist").balance
}

#[test]
fn transfer_moves_funds_and_appends_history() {
    // balance(alice)=500, balance(bob)=100 -> transfer(alice, bob, 100)
    // yields Success, balance(alice)=400, balance(bob)=200, one history
    // record appended to each.
    let mut store = Store::new();
    with_account(&mut store, "alice", "aa");
    with_account(&mut store, "bob", "bb");
    assert_eq!(store.withdraw("bob", 400), WithdrawStatus::Done);
    assert_eq!(balance_of(&store, "alice"), 500);
    assert_eq!(balance_of(&store, "bob"), 100);

    let r = store.transfer("alice", "bob", 100, 1_000);
    assert_eq!(r, Ok(TransactionStatus::Success));
    assert_eq!(balance_of(&store, "alice"), 400);
    assert_eq!(balance_of(&store, "bob"), 200);

    let alice_history = store.history("alice").unwrap();
    assert_eq!(alice_history.len(), 1);
    assert_eq!(alice_history[0].from, "alice");
    assert_eq!(alice_history[0].to, "bob");
    assert_eq!(alice_history[0].amount, 100);

    let bob_history = store.history("bob").unwrap();
    assert_eq!(bob_history.len(), 1);
    assert_eq!(bob_history[0].from, "alice");
    assert_eq!(bob_history[0].to, "bob");
    assert_eq!(bob_history[0].amount, 100);
}

#[test]
fn transfer_during_cooldown_is_rejected() {
    // Immediately after a successful transfer from alice, a second transfer
    // before the cooldown expires yields Cooldown, balances unchanged.
    let mut store = Store::new();
    with_account(&mut store, "alice", "aa");
    with_account(&mut store, "bob", "bb");
    with_account(&mut store, "carol", "cc");

    assert_eq!(
        store.transfer("alice", "bob", 100, 1_000),
        Ok(TransactionStatus::Success)
    );
    // The cooldown lasts 60 seconds; 30 seconds later it is still active.
    let r = store.transfer("alice", "carol", 10, 1_030);
    assert_eq!(r, Ok(TransactionStatus::Cooldown));
    assert_eq!(balance_of(&store, "alice"), 400);
    assert_eq!(balance_of(&store, "bob"), 600);
    assert_eq!(balance_of(&store, "carol"), 500);
    assert_eq!(store.history("carol").unwrap().len(), 0);
}

#[test]
fn transfer_after_cooldown_expiry_succeeds() {
    let mut store = Store::new();
    with_account(&mut store, "alice", "aa");
    with_account(&mut store, "bob", "bb");

    assert_eq!(
        store.transfer("alice", "bob", 100, 1_000),
        Ok(TransactionStatus::Success)
    );
    // The lock expires at 1_060: a transfer at that instant goes through.
    assert_eq!(
        store.transfer("alice", "bob", 100, 1_060),
        Ok(TransactionStatus::Success)
    );
    assert_eq!(balance_of(&store, "alice"), 300);
}

#[test]
fn transfer_with_insufficient_funds_mutates_nothing() {
    // A transfer with amount greater than the source balance mutates
    // nothing and returns NotEnoughFunds.
    let mut store = Store::new();
    with_account(&mut store, "alice", "aa");
    with_account(&mut store, "bob", "bb");

    let r = store.transfer("alice", "bob", 501, 1_000);
    assert_eq!(r, Ok(TransactionStatus::NotEnoughFunds));
    assert_eq!(balance_of(&store, "alice"), 500);
    assert_eq!(balance_of(&store, "bob"), 500);
    assert_eq!(store.history("alice").unwrap().len(), 0);
    assert_eq!(store.history("bob").unwrap().len(), 0);
    // No cooldown lock was set either: a covered transfer goes through now.
    assert_eq!(
        store.transfer("alice", "bob", 500, 1_001),
        Ok(TransactionStatus::Success)
    );
}

#[test]
fn self_transfer_is_rejected_before_the_store() {
    // A transfer where source equals destination is rejected before any
    // store interaction.
    let mut store = Store::new();
    with_account(&mut store, "alice", "aa");

    let r = store.transfer("alice", "alice", 10, 1_000);
    assert_eq!(r, Err(TransferError::SelfTransfer));
    assert_eq!(balance_of(&store, "alice"), 500);
    assert_eq!(store.history("alice").unwrap().len(), 0);
    // Even a self transfer between unknown names never reaches the store.
    assert_eq!(
        store.transfer("nobody", "nobody", 10, 1_000),
        Err(TransferError::SelfTransfer)
    );
}

#[test]
fn transfer_endpoints_are_resolved_in_order() {
    let mut store = Store::new();
    with_account(&mut store, "alice", "aa");

    assert_eq!(
        store.transfer("ghost", "alice", 10, 1_000),
        Ok(TransactionStatus::InvalidFrom)
    );
    assert_eq!(
        store.transfer("alice", "ghost", 10, 1_000),
        Ok(TransactionStatus::InvalidTo)
    );
    // A missing source wins over a missing destination.
    assert_eq!(
        store.transfer("ghost", "phantom", 10, 1_000),
        Ok(TransactionStatus::InvalidFrom)
    );
    assert_eq!(balance_of(&store, "alice"), 500);
}

#[test]
fn transfer_sum_of_balances_is_invariant() {
    // Across a sequence of transfers only, the sum of all balances never
    // changes, whatever each transfer's outcome.
    let mut store = Store::new();
    with_account(&mut store, "alice", "aa");
    with_account(&mut store, "bob", "bb");
    with_account(&mut store, "carol", "cc");
    let total = 1_500u64;

    let requests: [(&str, &str, u32, u64); 6] = [
        ("alice", "bob", 200, 1_000),
        ("bob", "carol", 700, 1_001),
        ("alice", "carol", 50, 1_002),   // cooldown on alice
        ("carol", "alice", 10_000, 1_003), // not enough funds
        ("ghost", "alice", 5, 1_004),    // invalid source
        ("carol", "bob", 300, 1_005),
    ];
    for (from, to, amount, now) in requests {
        let _ = store.transfer(from, to, amount, now);
        let sum = balance_of(&store, "alice") as u64
            + balance_of(&store, "bob") as u64
            + balance_of(&store, "carol") as u64;
        assert_eq!(sum, total);
    }
}

#[test]
fn transfer_to_a_full_destination_is_a_capacity_error() {
    let mut store = Store::new();
    with_account(&mut store, "alice", "aa");
    with_account(&mut store, "bob", "bb");
    assert_eq!(store.deposit("bob", u32::MAX - 500), DepositStatus::Done);

    let r = store.transfer("alice", "bob", 1, 1_000);
    assert_eq!(r, Err(TransferError::BalanceOverflow));
    assert_eq!(balance_of(&store, "alice"), 500);
    assert_eq!(balance_of(&store, "bob"), u32::MAX);
}

#[test]
fn withdraw_checks_funds_and_never_goes_negative() {
    // A withdraw request for more than the current balance mutates nothing
    // and reports insufficient funds.
    let mut store = Store::new();
    with_account(&mut store, "alice", "aa");

    assert_eq!(store.withdraw("alice", 501), WithdrawStatus::InsufficientFunds);
    assert_eq!(balance_of(&store, "alice"), 500);
    assert_eq!(store.withdraw("alice", 500), WithdrawStatus::Done);
    assert_eq!(balance_of(&store, "alice"), 0);
    assert_eq!(store.withdraw("alice", 1), WithdrawStatus::InsufficientFunds);
    assert_eq!(balance_of(&store, "alice"), 0);
    assert_eq!(store.withdraw("ghost", 1), WithdrawStatus::NoSuchUser);
}

#[test]
fn deposit_increments_up_to_the_capacity_limit() {
    let mut store = Store::new();
    with_account(&mut store, "alice", "aa");

    assert_eq!(store.deposit("alice", 250), DepositStatus::Done);
    assert_eq!(balance_of(&store, "alice"), 750);
    assert_eq!(store.deposit("ghost", 1), DepositStatus::NoSuchUser);
    assert_eq!(store.deposit("alice", u32::MAX - 749), DepositStatus::Overflow);
    assert_eq!(balance_of(&store, "alice"), 750);
    assert_eq!(store.deposit("alice", u32::MAX - 750), DepositStatus::Done);
    assert_eq!(balance_of(&store, "alice"), u32::MAX);
}

#[test]
fn history_returns_the_most_recent_window() {
    let mut store = Store::new();
    with_account(&mut store, "target", "tt");
    // 25 distinct senders, so no cooldown interferes; the target's history
    // gets 25 records but a query returns only the 20 most recent.
    for k in 0..25u32 {
        let name = format!("sender{}", k);
        let handle = format!("h{}", k);
        let handles = vec![handle];
        let outcome =
            store.create_account_with(&name, &name, "s@x.y", "kh", "s", &handles);
        assert!(matches!(outcome, impenetrable::db::CreateOutcome::Success(_)));
        assert_eq!(
            store.transfer(&name, "target", k + 1, 1_000 + k as u64),
            Ok(TransactionStatus::Success)
        );
    }
    let entries = store.history("target").unwrap();
    assert_eq!(entries.len(), 20);
    // The oldest five records (amounts 1..=5) fell out of the window.
    assert_eq!(entries[0].from, "sender5");
    assert_eq!(entries[0].amount, 6);
    assert_eq!(entries[19].from, "sender24");
    assert_eq!(entries[19].amount, 25);
    assert!(store.history("ghost").is_none());
}
