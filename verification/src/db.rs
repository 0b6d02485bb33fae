//! The account store and the ledger engine: per-handle records, the
//! username directory, and the atomic procedures that create, delete and
//! mutate accounts.

use vstd::prelude::*;
use crate::model::AccountView;
use crate::model::HistoryEntryView;
use crate::model::has_user;
use crate::model::user_index;
use crate::model::has_handle;
use crate::model::sum_balances;
use crate::model::spec_transaction;
use crate::model::spec_transfer;
use crate::model::directory_ok;
use crate::model::new_account_view;
use crate::model::lemma_user_index_is;
use crate::model::lemma_sum_update;
use crate::model::lemma_sum_push;
use crate::model::lemma_sum_remove;
use crate::api::HistoryEntry;
use crate::keyhash::bcrypt_verify_res;
use crate::keyhash::key_prefix;
use crate::keyhash::random_bytes;
use crate::keyhash::to_hex;
use vstd::string::StringSliceAdditionalSpecFns;
use vstd::string::StringExecFns;

verus! {

/// Balance granted to every freshly created account.
pub const INITIAL_BALANCE: u32 = 500;

/// Bound on handle-generation attempts during account creation.
pub const MAX_RETRIES: usize = 256;

/// Number of random bytes in an account handle (hex-encoded to twice as
/// many characters).
pub const USERHASH_SIZE: usize = 32;

/// Fixed lifetime, in seconds, of the cooldown lock a transfer sets on the
/// source account.
pub const COOLDOWN_SECS: u64 = 60;

/// How many of the most recent history records a history query returns.
pub const HISTORY_WINDOW: usize = 20;

/// Outcome of the atomic transfer procedure. Any value outside this set
/// coming back from a store is a protocol violation, not a domain outcome.
#[derive(Debug, PartialEq, Eq, Structural)]
pub enum TransactionStatus {
    Success,
    NotEnoughFunds,
    InvalidFrom,
    InvalidTo,
    Cooldown,
}

/// A transfer request that never reaches the atomic procedure: a self
/// transfer, or a credit that would push the destination balance past the
/// store's native integer width (a hard capacity limit, not a domain
/// outcome).
#[derive(Debug, PartialEq, Eq, Structural)]
pub enum TransferError {
    SelfTransfer,
    BalanceOverflow,
}

/// Outcome of a deposit. Overflowing the store's native integer width is a
/// capacity error, not a domain outcome.
#[derive(Debug, PartialEq, Eq, Structural)]
pub enum DepositStatus {
    Done,
    NoSuchUser,
    Overflow,
}

/// Outcome of a withdrawal: a compare-and-decrement that never lets a
/// balance go below zero.
#[derive(Debug, PartialEq, Eq, Structural)]
pub enum WithdrawStatus {
    Done,
    InsufficientFunds,
    NoSuchUser,
}

/// Outcome of the account-creation procedure: the fresh handle on success,
/// a taken username, or an exhausted retry budget.
#[derive(Debug, PartialEq)]
pub enum CreateOutcome {
    Success(String),
    UserExists,
    UnableToCreate,
}

/// Profile summary handed back to the API layer.
#[derive(Debug)]
pub struct UserInfo {
    pub username: String,
    pub balance: u32,
    pub admin: bool,
}

impl View for HistoryEntry {
    type V = HistoryEntryView;

    open spec fn view(&self) -> HistoryEntryView {
        HistoryEntryView { from: self.from@, to: self.to@, amount: self.amount }
    }
}

/// The model of a history list, record by record.
pub open spec fn history_view(s: Seq<HistoryEntry>) -> Seq<HistoryEntryView> {
    s.map_values(|e: HistoryEntry| e@)
}

/// One per-handle account record, together with its directory entry.
pub struct Account {
    pub handle: String,
    pub username: String,
    pub realname: String,
    pub email: String,
    pub keyhash: String,
    pub salt: String,
    pub balance: u32,
    pub admin: bool,
    pub cooldown: Option<u64>,
    pub history: Vec<HistoryEntry>,
}

impl View for Account {
    type V = AccountView;

    open spec fn view(&self) -> AccountView {
        AccountView {
            handle: self.handle@,
            username: self.username@,
            realname: self.realname@,
            email: self.email@,
            keyhash: self.keyhash@,
            salt: self.salt@,
            balance: self.balance,
            admin: self.admin,
            cooldown: self.cooldown,
            history: history_view(self.history@),
        }
    }
}

/// The whole persisted state: every account record plus the directory,
/// which maps each username to exactly one live handle.
pub struct Store {
    accounts: Vec<Account>,
}

impl View for Store {
    type V = Seq<AccountView>;

    closed spec fn view(&self) -> Seq<AccountView> {
        self.accounts@.map_values(|a: Account| a@)
    }
}

impl Store {
    /// Usernames and handles are unique across all live accounts: every
    /// live handle has exactly one directory entry and vice versa.
    pub open spec fn wf(&self) -> bool {
        directory_ok(self@)
    }

    pub fn new() -> (s: Store)
        ensures
            s@ =~= Seq::<AccountView>::empty(),
            s.wf(),
    {
        Store { accounts: Vec::new() }
    }

    /// Resolve a username to the index of its account record.
    fn lookup(&self, username: &String) -> (r: Option<usize>)
        ensures
            match r {
                Some(i) => 0 <= i < self@.len() && self@[i as int].username == username@,
                None => !has_user(self@, username@),
            },
    {
        let n = self.accounts.len();
        assert(n == self@.len());
        for i in 0..n
            invariant
                n == self.accounts.len(),
                n == self@.len(),
                forall|k: int| 0 <= k < i ==> #[trigger] self@[k].username != username@,
        {
            assert(self@[i as int] == self.accounts@[i as int]@);
            if self.accounts[i].username == *username {
                return Some(i);
            }
        }
        None
    }

    /// The atomic transfer procedure. Self-transfers must be rejected by the
    /// caller before the store is reached, so distinct endpoints are a
    /// precondition here; so is the hard capacity limit of the destination
    /// balance, which is bounded by the store's native integer width.
    ///
    /// Whatever the outcome, the sum of all balances is unchanged: only
    /// `Success` mutates anything, and it moves `amount` from one account to
    /// another.
    pub fn transaction(&mut self, from: &str, to: &str, amount: u32, now: u64) -> (r:
        TransactionStatus)
        requires
            old(self).wf(),
            from@ != to@,
            now + COOLDOWN_SECS <= u64::MAX,
            has_user(old(self)@, to@) ==> old(self)@[user_index(old(self)@, to@)].balance + amount
                <= u32::MAX,
        ensures
            final(self)@ == spec_transaction(old(self)@, from@, to@, amount, now).0,
            r == spec_transaction(old(self)@, from@, to@, amount, now).1,
            r != TransactionStatus::Success ==> final(self)@ == old(self)@,
            final(self).wf(),
            sum_balances(final(self)@) == sum_balances(old(self)@),
    {
        let ghost pre = self@;
        let ghost pre_acc = self.accounts@;
        let from_key = from.to_owned();
        let to_key = to.to_owned();
        let i = match self.lookup(&from_key) {
            None => {
                return TransactionStatus::InvalidFrom;
            },
            Some(i) => i,
        };
        let j = match self.lookup(&to_key) {
            None => {
                return TransactionStatus::InvalidTo;
            },
            Some(j) => j,
        };
        proof {
            lemma_user_index_is(pre, from@, i as int);
            lemma_user_index_is(pre, to@, j as int);
        }
        let cooldown = self.accounts[i].cooldown;
        let active = match cooldown {
            Some(expiry) => now < expiry,
            None => false,
        };
        proof {
            assert(pre[i as int] == self.accounts@[i as int]@);
            assert(pre[j as int] == self.accounts@[j as int]@);
        }
        if active {
            return TransactionStatus::Cooldown;
        }
        if self.accounts[i].balance < amount {
            return TransactionStatus::NotEnoughFunds;
        }
        let ghost rec = (HistoryEntryView { from: from@, to: to@, amount: amount });
        let mut src = self.accounts.remove(i);
        src.balance = src.balance - amount;
        src.history.push(HistoryEntry { from: from.to_owned(), to: to.to_owned(), amount: amount });
        src.cooldown = Some(now + COOLDOWN_SECS);
        self.accounts.insert(i, src);
        let ghost mid = pre_acc.update(i as int, self.accounts@[i as int]);
        proof {
            assert(self.accounts@ =~= mid);
        }
        let mut dst = self.accounts.remove(j);
        dst.balance = dst.balance + amount;
        dst.history.push(HistoryEntry { from: from.to_owned(), to: to.to_owned(), amount: amount });
        self.accounts.insert(j, dst);
        proof {
            assert(self.accounts@ =~= mid.update(j as int, self.accounts@[j as int]));
            let post = spec_transaction(pre, from@, to@, amount, now).0;
            assert(self@ =~~= post);
            lemma_sum_update(pre, i as int, post[i as int]);
            lemma_sum_update(pre.update(i as int, post[i as int]), j as int, post[j as int]);
            assert(pre.update(i as int, post[i as int]).update(j as int, post[j as int]) =~= post);
            assert forall|a: int, b: int|
                #![trigger self@[a], self@[b]]
                0 <= a < b < self@.len() implies self@[a].username != self@[b].username && self@[
                a
            ].handle != self@[b].handle by {
                assert(self@.len() == pre.len());
                assert(pre[a].username != pre[b].username && pre[a].handle != pre[b].handle);
            }
        }
        TransactionStatus::Success
    }

    /// A transfer as the API layer requests it: reject a self transfer
    /// before any store interaction, guard the destination against the hard
    /// balance cap, then run the atomic procedure.
    pub fn transfer(&mut self, from: &str, to: &str, amount: u32, now: u64) -> (r: Result<
        TransactionStatus,
        TransferError,
    >)
        requires
            old(self).wf(),
            now + COOLDOWN_SECS <= u64::MAX,
        ensures
            final(self).wf(),
            sum_balances(final(self)@) == sum_balances(old(self)@),
            final(self)@ == spec_transfer(old(self)@, from@, to@, amount, now).0,
            r == spec_transfer(old(self)@, from@, to@, amount, now).1,
            (r == Err::<TransactionStatus, TransferError>(TransferError::SelfTransfer)) <==> from@
                == to@,
            (r == Err::<TransactionStatus, TransferError>(TransferError::BalanceOverflow)) <==> (
            from@ != to@ && has_user(old(self)@, to@) && old(self)@[user_index(old(self)@, to@)].balance
                + amount > u32::MAX),
            r matches Err(_) ==> final(self)@ == old(self)@,
            r matches Ok(status) ==> status == spec_transaction(old(self)@, from@, to@, amount, now).1
                && final(self)@ == spec_transaction(old(self)@, from@, to@, amount, now).0,
            r != Ok::<TransactionStatus, TransferError>(TransactionStatus::Success)
                ==> final(self)@ == old(self)@,
    {
        let ghost pre = self@;
        let from_key = from.to_owned();
        let to_key = to.to_owned();
        if from_key == to_key {
            return Err(TransferError::SelfTransfer);
        }
        match self.lookup(&to_key) {
            Some(j) => {
                proof {
                    lemma_user_index_is(pre, to@, j as int);
                }
                if amount > u32::MAX - self.accounts[j].balance {
                    proof {
                        assert(pre[j as int] == self.accounts@[j as int]@);
                    }
                    return Err(TransferError::BalanceOverflow);
                }
                proof {
                    assert(pre[j as int] == self.accounts@[j as int]@);
                }
            },
            None => {},
        }
        Ok(self.transaction(from, to, amount, now))
    }

    /// Atomically increment a balance. There is no cooldown and no upper
    /// bound below the store's native integer width.
    pub fn deposit(&mut self, username: &str, amount: u32) -> (r: DepositStatus)
        requires
            old(self).wf(),
        ensures
            final(self).wf(),
            (r == DepositStatus::NoSuchUser) <==> !has_user(old(self)@, username@),
            (r == DepositStatus::Overflow) <==> (has_user(old(self)@, username@) && old(self)@[
                user_index(old(self)@, username@)
            ].balance + amount > u32::MAX),
            r == DepositStatus::Done ==> final(self)@ == old(self)@.update(
                user_index(old(self)@, username@),
                (AccountView {
                    balance: (old(self)@[user_index(old(self)@, username@)].balance + amount) as u32,
                    ..old(self)@[user_index(old(self)@, username@)]
                }),
            ),
            r != DepositStatus::Done ==> final(self)@ == old(self)@,
    {
        let ghost pre = self@;
        let ghost pre_acc = self.accounts@;
        let uname = username.to_owned();
        let i = match self.lookup(&uname) {
            None => {
                return DepositStatus::NoSuchUser;
            },
            Some(i) => i,
        };
        proof {
            lemma_user_index_is(pre, username@, i as int);
            assert(pre[i as int] == self.accounts@[i as int]@);
        }
        if amount > u32::MAX - self.accounts[i].balance {
            return DepositStatus::Overflow;
        }
        let mut acct = self.accounts.remove(i);
        acct.balance = acct.balance + amount;
        self.accounts.insert(i, acct);
        proof {
            assert(self.accounts@ =~= pre_acc.update(i as int, self.accounts@[i as int]));
            assert(self@ =~~= pre.update(
                i as int,
                (AccountView { balance: (pre[i as int].balance + amount) as u32, ..pre[i as int] }),
            ));
            assert forall|a: int, b: int|
                #![trigger self@[a], self@[b]]
                0 <= a < b < self@.len() implies self@[a].username != self@[b].username && self@[
                a
            ].handle != self@[b].handle by {
                assert(pre[a].username != pre[b].username && pre[a].handle != pre[b].handle);
            }
        }
        DepositStatus::Done
    }

    /// Atomically decrement a balance if and only if it covers `amount`.
    /// An insufficient balance mutates nothing, so a balance can never be
    /// observed below zero.
    pub fn withdraw(&mut self, username: &str, amount: u32) -> (r: WithdrawStatus)
        requires
            old(self).wf(),
        ensures
            final(self).wf(),
            (r == WithdrawStatus::NoSuchUser) <==> !has_user(old(self)@, username@),
            (r == WithdrawStatus::InsufficientFunds) <==> (has_user(old(self)@, username@) && old(
                self,
            )@[user_index(old(self)@, username@)].balance < amount),
            r == WithdrawStatus::Done ==> final(self)@ == old(self)@.update(
                user_index(old(self)@, username@),
                (AccountView {
                    balance: (old(self)@[user_index(old(self)@, username@)].balance - amount) as u32,
                    ..old(self)@[user_index(old(self)@, username@)]
                }),
            ),
            r != WithdrawStatus::Done ==> final(self)@ == old(self)@,
    {
        let ghost pre = self@;
        let ghost pre_acc = self.accounts@;
        let uname = username.to_owned();
        let i = match self.lookup(&uname) {
            None => {
                return WithdrawStatus::NoSuchUser;
            },
            Some(i) => i,
        };
        proof {
            lemma_user_index_is(pre, username@, i as int);
            assert(pre[i as int] == self.accounts@[i as int]@);
        }
        if self.accounts[i].balance < amount {
            return WithdrawStatus::InsufficientFunds;
        }
        let mut acct = self.accounts.remove(i);
        acct.balance = acct.balance - amount;
        self.accounts.insert(i, acct);
        proof {
            assert(self.accounts@ =~= pre_acc.update(i as int, self.accounts@[i as int]));
            assert(self@ =~~= pre.update(
                i as int,
                (AccountView { balance: (pre[i as int].balance - amount) as u32, ..pre[i as int] }),
            ));
            assert forall|a: int, b: int|
                #![trigger self@[a], self@[b]]
                0 <= a < b < self@.len() implies self@[a].username != self@[b].username && self@[
                a
            ].handle != self@[b].handle by {
                assert(pre[a].username != pre[b].username && pre[a].handle != pre[b].handle);
            }
        }
        WithdrawStatus::Done
    }

    /// Remove every per-handle key together with the directory entry in one
    /// procedure. A missing account is not distinguished from success.
    pub fn delete_account(&mut self, username: &str)
        requires
            old(self).wf(),
        ensures
            final(self).wf(),
            has_user(old(self)@, username@) ==> final(self)@ == old(self)@.remove(
                user_index(old(self)@, username@),
            ) && sum_balances(final(self)@) == sum_balances(old(self)@) - old(self)@[
                user_index(old(self)@, username@)
            ].balance,
            !has_user(old(self)@, username@) ==> final(self)@ == old(self)@,
    {
        let ghost pre = self@;
        let ghost pre_acc = self.accounts@;
        let uname = username.to_owned();
        match self.lookup(&uname) {
            None => {},
            Some(i) => {
                proof {
                    lemma_user_index_is(pre, username@, i as int);
                }
                self.accounts.remove(i);
                proof {
                    assert(self@ =~~= pre.remove(i as int));
                    lemma_sum_remove(pre, i as int);
                    assert forall|a: int, b: int|
                        #![trigger self@[a], self@[b]]
                        0 <= a < b < self@.len() implies self@[a].username != self@[b].username
                        && self@[a].handle != self@[b].handle by {
                        let pa = if a < i as int { a } else { a + 1 };
                        let pb = if b < i as int { b } else { b + 1 };
                        assert(self@[a] == pre[pa] && self@[b] == pre[pb]);
                        assert(pre[pa].username != pre[pb].username && pre[pa].handle != pre[
                            pb
                        ].handle);
                    }
                }
            },
        }
    }

    /// Resolve a username to its opaque account handle.
    pub fn get_userhash(&self, username: &str) -> (r: Option<String>)
        requires
            self.wf(),
        ensures
            match r {
                Some(h) => has_user(self@, username@) && h@ == self@[
                    user_index(self@, username@)
                ].handle,
                None => !has_user(self@, username@),
            },
    {
        let uname = username.to_owned();
        match self.lookup(&uname) {
            None => None,
            Some(i) => {
                proof {
                    lemma_user_index_is(self@, username@, i as int);
                }
                Some(self.accounts[i].handle.clone())
            },
        }
    }

    /// Profile, balance and admin flag for one account.
    pub fn user_info(&self, username: &str) -> (r: Option<UserInfo>)
        requires
            self.wf(),
        ensures
            match r {
                Some(info) => has_user(self@, username@) && info.username@ == username@
                    && info.balance == self@[user_index(self@, username@)].balance && info.admin
                    == self@[user_index(self@, username@)].admin,
                None => !has_user(self@, username@),
            },
    {
        let uname = username.to_owned();
        match self.lookup(&uname) {
            None => None,
            Some(i) => {
                proof {
                    lemma_user_index_is(self@, username@, i as int);
                    assert(self@[i as int] == self.accounts@[i as int]@);
                }
                Some(
                    UserInfo {
                        username: uname,
                        balance: self.accounts[i].balance,
                        admin: self.accounts[i].admin,
                    },
                )
            },
        }
    }

    /// Whether the admin flag is present on the account.
    pub fn is_admin(&self, username: &str) -> (r: Option<bool>)
        requires
            self.wf(),
        ensures
            match r {
                Some(admin) => has_user(self@, username@) && admin == self@[
                    user_index(self@, username@)
                ].admin,
                None => !has_user(self@, username@),
            },
    {
        let uname = username.to_owned();
        match self.lookup(&uname) {
            None => None,
            Some(i) => {
                proof {
                    lemma_user_index_is(self@, username@, i as int);
                    assert(self@[i as int] == self.accounts@[i as int]@);
                }
                Some(self.accounts[i].admin)
            },
        }
    }

    /// The most recent entries of the account's append-only history, at
    /// most `HISTORY_WINDOW` of them, oldest first.
    pub fn history(&self, username: &str) -> (r: Option<Vec<HistoryEntry>>)
        requires
            self.wf(),
        ensures
            match r {
                Some(entries) => {
                    let all = self@[user_index(self@, username@)].history;
                    let start = if all.len() > HISTORY_WINDOW as int {
                        all.len() - HISTORY_WINDOW as int
                    } else {
                        0
                    };
                    has_user(self@, username@) && history_view(entries@) == all.subrange(
                        start,
                        all.len() as int,
                    )
                },
                None => !has_user(self@, username@),
            },
    {
        let uname = username.to_owned();
        let i = match self.lookup(&uname) {
            None => {
                return None;
            },
            Some(i) => i,
        };
        proof {
            lemma_user_index_is(self@, username@, i as int);
            assert(self@[i as int] == self.accounts@[i as int]@);
        }
        let ghost all = self@[user_index(self@, username@)].history;
        let n = self.accounts[i].history.len();
        let start = if n > HISTORY_WINDOW {
            n - HISTORY_WINDOW
        } else {
            0
        };
        let mut entries: Vec<HistoryEntry> = Vec::new();
        for k in start..n
            invariant
                0 <= i < self.accounts@.len(),
                n == self.accounts@[i as int].history@.len(),
                start <= k <= n,
                all == self.accounts@[i as int]@.history,
                history_view(entries@) =~= all.subrange(start as int, k as int),
        {
            let e = HistoryEntry {
                from: self.accounts[i].history[k].from.clone(),
                to: self.accounts[i].history[k].to.clone(),
                amount: self.accounts[i].history[k].amount,
            };
            proof {
                assert(e@ == all[k as int]);
            }
            let ghost prev = entries@;
            entries.push(e);
            proof {
                assert(history_view(prev) =~= all.subrange(start as int, k as int));
                assert(history_view(prev).len() == prev.len());
                assert(history_view(entries@) =~= all.subrange(start as int, k + 1 as int));
            }
        }
        proof {
            assert(history_view(entries@) =~= all.subrange(start as int, n as int));
        }
        Some(entries)
    }

    /// Resolve a handle to the index of its account record.
    fn lookup_handle(&self, handle: &String) -> (r: Option<usize>)
        ensures
            match r {
                Some(i) => 0 <= i < self@.len() && self@[i as int].handle == handle@,
                None => !has_handle(self@, handle@),
            },
    {
        let n = self.accounts.len();
        for i in 0..n
            invariant
                n == self.accounts.len(),
                n == self@.len(),
                forall|k: int| 0 <= k < i ==> #[trigger] self@[k].handle != handle@,
        {
            assert(self@[i as int] == self.accounts@[i as int]@);
            if self.accounts[i].handle == *handle {
                return Some(i);
            }
        }
        None
    }

    /// The atomic account-creation procedure, tried once per candidate
    /// handle: a taken username fails immediately with no retry; a candidate
    /// whose handle is already in use leaves all state unchanged and the
    /// next candidate is tried; the first unused candidate has the full
    /// record written and the directory entry inserted atomically.
    pub fn create_account_with(
        &mut self,
        username: &str,
        realname: &str,
        email: &str,
        keyhash: &str,
        salt: &str,
        handles: &Vec<String>,
    ) -> (r: CreateOutcome)
        requires
            old(self).wf(),
        ensures
            final(self).wf(),
            (r == CreateOutcome::UserExists) <==> has_user(old(self)@, username@),
            r == CreateOutcome::UserExists ==> final(self)@ == old(self)@,
            r == CreateOutcome::UnableToCreate ==> final(self)@ == old(self)@ && (forall|k: int|
                0 <= k < handles@.len() ==> has_handle(old(self)@, #[trigger] handles@[k]@)),
            (!has_user(old(self)@, username@) && (exists|k: int|
                0 <= k < handles@.len() && !has_handle(old(self)@, #[trigger] handles@[k]@)))
                <==> (r matches CreateOutcome::Success(_)),
            r matches CreateOutcome::Success(h) ==> (exists|k: int|
                0 <= k < handles@.len() && h@ == #[trigger] handles@[k]@ && !has_handle(
                    old(self)@,
                    h@,
                ) && (forall|m: int| 0 <= m < k ==> has_handle(old(self)@, #[trigger] handles@[m]@)))
                && final(self)@ == old(self)@.push(
                new_account_view(h@, username@, realname@, email@, keyhash@, salt@),
            ),
            r matches CreateOutcome::Success(_) ==> sum_balances(final(self)@) == sum_balances(
                old(self)@,
            ) + INITIAL_BALANCE,
    {
        let ghost pre = self@;
        let uname = username.to_owned();
        if self.lookup(&uname).is_some() {
            return CreateOutcome::UserExists;
        }
        let n = handles.len();
        for k in 0..n
            invariant
                self@ == pre,
                pre == old(self)@,
                directory_ok(pre),
                !has_user(pre, username@),
                n == handles@.len(),
                forall|m: int| 0 <= m < k ==> has_handle(pre, #[trigger] handles@[m]@),
        {
            match self.lookup_handle(&handles[k]) {
                None => {
                    let acct = Account {
                        handle: handles[k].clone(),
                        username: username.to_owned(),
                        realname: realname.to_owned(),
                        email: email.to_owned(),
                        keyhash: keyhash.to_owned(),
                        salt: salt.to_owned(),
                        balance: INITIAL_BALANCE,
                        admin: false,
                        cooldown: None,
                        history: Vec::new(),
                    };
                    self.accounts.push(acct);
                    proof {
                        let fresh = new_account_view(
                            handles@[k as int]@,
                            username@,
                            realname@,
                            email@,
                            keyhash@,
                            salt@,
                        );
                        assert(self@ =~~= pre.push(fresh));
                        lemma_sum_push(pre, fresh);
                        assert forall|a: int, b: int|
                            #![trigger self@[a], self@[b]]
                            0 <= a < b < self@.len() implies self@[a].username != self@[b].username
                            && self@[a].handle != self@[b].handle by {
                            if b == self@.len() - 1 {
                                if pre[a].username == username@ {
                                    assert(has_user(pre, username@));
                                }
                                if pre[a].handle == handles@[k as int]@ {
                                    assert(has_handle(pre, handles@[k as int]@));
                                }
                            } else {
                                assert(pre[a].username != pre[b].username && pre[a].handle != pre[
                                    b
                                ].handle);
                            }
                        }
                    }
                    return CreateOutcome::Success(handles[k].clone());
                },
                Some(_) => {},
            }
        }
        CreateOutcome::UnableToCreate
    }

    /// Account creation as the API layer requests it: candidate handles are
    /// drawn at random, up to the fixed retry bound. The handle space is
    /// large enough that exhausting the bound is astronomically unlikely,
    /// but the retry loop is kept for correctness under pathological
    /// conditions.
    pub fn create_account(
        &mut self,
        username: &str,
        realname: &str,
        email: &str,
        keyhash: &str,
        salt: &str,
    ) -> (r: CreateOutcome)
        requires
            old(self).wf(),
        ensures
            final(self).wf(),
            (r == CreateOutcome::UserExists) <==> has_user(old(self)@, username@),
            r == CreateOutcome::UserExists ==> final(self)@ == old(self)@,
            r == CreateOutcome::UnableToCreate ==> final(self)@ == old(self)@ && !has_user(
                old(self)@,
                username@,
            ),
            r matches CreateOutcome::Success(h) ==> !has_user(old(self)@, username@)
                && !has_handle(old(self)@, h@) && h@.len() == 2 * USERHASH_SIZE && final(self)@
                == old(self)@.push(
                new_account_view(h@, username@, realname@, email@, keyhash@, salt@),
            ),
    {
        let mut handles: Vec<String> = Vec::new();
        for attempt in 0..MAX_RETRIES
            invariant
                handles@.len() == attempt,
                forall|m: int|
                    0 <= m < attempt ==> (#[trigger] handles@[m]@).len() == 2 * USERHASH_SIZE,
        {
            handles.push(fresh_handle());
        }
        self.create_account_with(username, realname, email, keyhash, salt, &handles)
    }

    /// Check submitted credentials. A missing account and a wrong key give
    /// the same observable result, and a credential that cannot be checked
    /// counts as not valid.
    pub fn validate(&self, username: &str, password: &str) -> (r: bool)
        requires
            self.wf(),
        ensures
            r == (has_user(self@, username@) && bcrypt_verify_res(
                key_prefix(password.spec_bytes()),
                self@[user_index(self@, username@)].keyhash,
            ) == Some(true)),
    {
        let uname = username.to_owned();
        let i = match self.lookup(&uname) {
            None => {
                return false;
            },
            Some(i) => i,
        };
        proof {
            lemma_user_index_is(self@, username@, i as int);
            assert(self@[i as int] == self.accounts@[i as int]@);
        }
        let hash = self.accounts[i].keyhash.clone();
        let salt = self.accounts[i].salt.clone();
        match crate::keyhash::verify(password, hash.as_str(), salt.as_str()) {
            Ok(valid) => valid,
            Err(_) => false,
        }
    }
}

/// Key of the directory table mapping each username to its handle.
pub fn uid_table() -> (r: String)
    ensures
        r@ == "uids"@,
{
    "uids".to_owned()
}

/// One per-handle key of the persisted layout.
fn user_key(userhash: &str, suffix: &str) -> (r: String)
    ensures
        r@ == "user:"@ + userhash@ + suffix@,
{
    "user:".to_owned().concat(userhash).concat(suffix)
}

/// Key of the display-name field of the account on `userhash`.
pub fn user_name(userhash: &str) -> (r: String)
    ensures
        r@ == "user:"@ + userhash@ + ":name"@,
{
    user_key(userhash, ":name")
}

/// Key of the balance field of the account on `userhash`.
pub fn user_balance(userhash: &str) -> (r: String)
    ensures
        r@ == "user:"@ + userhash@ + ":balance"@,
{
    user_key(userhash, ":balance")
}

/// Key of the email field of the account on `userhash`.
pub fn user_email(userhash: &str) -> (r: String)
    ensures
        r@ == "user:"@ + userhash@ + ":email"@,
{
    user_key(userhash, ":email")
}

/// Key of the cooldown lock of the account on `userhash`.
pub fn user_cooldown(userhash: &str) -> (r: String)
    ensures
        r@ == "user:"@ + userhash@ + ":cd_lock"@,
{
    user_key(userhash, ":cd_lock")
}

/// Key of the append-only history list of the account on `userhash`.
pub fn user_history(userhash: &str) -> (r: String)
    ensures
        r@ == "user:"@ + userhash@ + ":history"@,
{
    user_key(userhash, ":history")
}

/// Key of the credential hash of the account on `userhash`.
pub fn user_keyhash(userhash: &str) -> (r: String)
    ensures
        r@ == "user:"@ + userhash@ + ":keyhash"@,
{
    user_key(userhash, ":keyhash")
}

/// Key of the credential salt of the account on `userhash`.
pub fn user_salt(userhash: &str) -> (r: String)
    ensures
        r@ == "user:"@ + userhash@ + ":salt"@,
{
    user_key(userhash, ":salt")
}

/// Key of the active-token set of the account on `userhash`.
pub fn user_tokens(userhash: &str) -> (r: String)
    ensures
        r@ == "user:"@ + userhash@ + ":tokens"@,
{
    user_key(userhash, ":tokens")
}

/// Key of the username field of the account on `userhash`.
pub fn user_username(userhash: &str) -> (r: String)
    ensures
        r@ == "user:"@ + userhash@ + ":username"@,
{
    user_key(userhash, ":username")
}

/// Key of the admin presence flag of the account on `userhash`.
pub fn user_admin(userhash: &str) -> (r: String)
    ensures
        r@ == "user:"@ + userhash@ + ":admin"@,
{
    user_key(userhash, ":admin")
}

/// One freshly generated candidate handle: the hex encoding of
/// `USERHASH_SIZE` random bytes.
fn fresh_handle() -> (h: String)
    ensures
        h@.len() == 2 * USERHASH_SIZE,
{
    let bytes = random_bytes(USERHASH_SIZE);
    to_hex(&bytes)
}

} // verus!
