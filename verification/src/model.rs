//! Mathematical model of the ledger: ghost mirrors of the stored records,
//! the directory predicates, the balance-sum function, and the atomic
//! transfer procedure as a state-transition function.

use vstd::prelude::*;
use crate::db::TransactionStatus;
use crate::db::TransferError;
use crate::db::COOLDOWN_SECS;

verus! {

/// Model of one append-only history record.
#[verifier::ext_equal]
pub ghost struct HistoryEntryView {
    pub from: Seq<char>,
    pub to: Seq<char>,
    pub amount: u32,
}

/// Model of one per-handle account record, together with its directory entry
/// (the `username` field).
#[verifier::ext_equal]
pub ghost struct AccountView {
    pub handle: Seq<char>,
    pub username: Seq<char>,
    pub realname: Seq<char>,
    pub email: Seq<char>,
    pub keyhash: Seq<char>,
    pub salt: Seq<char>,
    pub balance: u32,
    pub admin: bool,
    pub cooldown: Option<u64>,
    pub history: Seq<HistoryEntryView>,
}

/// Usernames and handles are unique across all live accounts: every live
/// handle has exactly one directory entry and vice versa.
pub open spec fn directory_ok(s: Seq<AccountView>) -> bool {
    forall|i: int, j: int|
        #![trigger s[i], s[j]]
        0 <= i < j < s.len() ==> s[i].username != s[j].username && s[i].handle != s[j].handle
}

/// The directory has an entry for `username`.
pub open spec fn has_user(s: Seq<AccountView>, username: Seq<char>) -> bool {
    exists|i: int| 0 <= i < s.len() && s[i].username == username
}

/// Index of the account that `username` resolves to (unique when the store
/// is well formed).
pub open spec fn user_index(s: Seq<AccountView>, username: Seq<char>) -> int {
    choose|i: int| 0 <= i < s.len() && s[i].username == username
}

/// Some account already owns `handle`.
pub open spec fn has_handle(s: Seq<AccountView>, handle: Seq<char>) -> bool {
    exists|i: int| 0 <= i < s.len() && s[i].handle == handle
}

/// A cooldown lock is set on the account and has not yet expired.
pub open spec fn cooldown_active(a: AccountView, now: u64) -> bool {
    match a.cooldown {
        Some(expiry) => now < expiry,
        None => false,
    }
}

/// In a well-formed store, an index whose account carries `username` is the
/// one that `user_index` picks.
pub proof fn lemma_user_index_is(s: Seq<AccountView>, username: Seq<char>, i: int)
    requires
        directory_ok(s),
        0 <= i < s.len(),
        s[i].username == username,
    ensures
        has_user(s, username),
        user_index(s, username) == i,
{
    assert(has_user(s, username));
    let k = user_index(s, username);
    if k < i {
        assert(s[k].username != s[i].username);
    } else if i < k {
        assert(s[i].username != s[k].username);
    }
}

/// Sum of all account balances: the quantity that transfers preserve.
pub open spec fn sum_balances(s: Seq<AccountView>) -> int
    decreases s.len(),
{
    if s.len() == 0 {
        0
    } else {
        sum_balances(s.drop_last()) + s.last().balance
    }
}

pub proof fn lemma_sum_update(s: Seq<AccountView>, i: int, a: AccountView)
    requires
        0 <= i < s.len(),
    ensures
        sum_balances(s.update(i, a)) == sum_balances(s) - s[i].balance + a.balance,
    decreases s.len(),
{
    if i == s.len() - 1 {
        assert(s.update(i, a).drop_last() =~= s.drop_last());
    } else {
        assert(s.update(i, a).drop_last() =~= s.drop_last().update(i, a));
        lemma_sum_update(s.drop_last(), i, a);
    }
}

pub proof fn lemma_sum_push(s: Seq<AccountView>, a: AccountView)
    ensures
        sum_balances(s.push(a)) == sum_balances(s) + a.balance,
{
    assert(s.push(a).drop_last() =~= s);
}

pub proof fn lemma_sum_remove(s: Seq<AccountView>, i: int)
    requires
        0 <= i < s.len(),
    ensures
        sum_balances(s.remove(i)) == sum_balances(s) - s[i].balance,
    decreases s.len(),
{
    if i == s.len() - 1 {
        assert(s.remove(i) =~= s.drop_last());
    } else {
        assert(s.remove(i).drop_last() =~= s.drop_last().remove(i));
        lemma_sum_remove(s.drop_last(), i);
    }
}

/// The record that account creation writes: profile fields, the initial
/// balance constant, no admin flag, no cooldown, and an empty history.
pub open spec fn new_account_view(
    handle: Seq<char>,
    username: Seq<char>,
    realname: Seq<char>,
    email: Seq<char>,
    keyhash: Seq<char>,
    salt: Seq<char>,
) -> AccountView {
    AccountView {
        handle: handle,
        username: username,
        realname: realname,
        email: email,
        keyhash: keyhash,
        salt: salt,
        balance: crate::db::INITIAL_BALANCE,
        admin: false,
        cooldown: None,
        history: Seq::empty(),
    }
}

/// The atomic transfer procedure, as executed by the store in one indivisible
/// step. Evaluation order is fixed: unknown source, unknown destination,
/// active cooldown on the source, insufficient funds, and only then the
/// mutation (debit, credit, one history record on each side, fresh cooldown
/// lock on the source).
pub open spec fn spec_transaction(
    pre: Seq<AccountView>,
    from: Seq<char>,
    to: Seq<char>,
    amount: u32,
    now: u64,
) -> (Seq<AccountView>, TransactionStatus) {
    if !has_user(pre, from) {
        (pre, TransactionStatus::InvalidFrom)
    } else if !has_user(pre, to) {
        (pre, TransactionStatus::InvalidTo)
    } else {
        let i = user_index(pre, from);
        let j = user_index(pre, to);
        if cooldown_active(pre[i], now) {
            (pre, TransactionStatus::Cooldown)
        } else if pre[i].balance < amount {
            (pre, TransactionStatus::NotEnoughFunds)
        } else {
            let rec = (HistoryEntryView { from: from, to: to, amount: amount });
            let src = (AccountView {
                balance: (pre[i].balance - amount) as u32,
                history: pre[i].history.push(rec),
                cooldown: Some((now + COOLDOWN_SECS) as u64),
                ..pre[i]
            });
            let dst = (AccountView {
                balance: (pre[j].balance + amount) as u32,
                history: pre[j].history.push(rec),
                ..pre[j]
            });
            (pre.update(i, src).update(j, dst), TransactionStatus::Success)
        }
    }
}

/// A transfer as the API layer requests it: a self transfer is rejected
/// before the store is reached, a credit past the destination's capacity is
/// rejected before the atomic procedure runs, anything else is handed to
/// the atomic procedure.
pub open spec fn spec_transfer(
    pre: Seq<AccountView>,
    from: Seq<char>,
    to: Seq<char>,
    amount: u32,
    now: u64,
) -> (Seq<AccountView>, Result<TransactionStatus, TransferError>) {
    if from == to {
        (pre, Err(TransferError::SelfTransfer))
    } else if has_user(pre, to) && pre[user_index(pre, to)].balance + amount > u32::MAX {
        (pre, Err(TransferError::BalanceOverflow))
    } else {
        let (post, status) = spec_transaction(pre, from, to, amount, now);
        (post, Ok(status))
    }
}

/// One transfer request as the ledger engine receives it.
pub ghost struct TransferReq {
    pub from: Seq<char>,
    pub to: Seq<char>,
    pub amount: u32,
    pub now: u64,
}

/// The ledger state after a sequence of transfer requests, applied in
/// order, whatever each one's outcome.
pub open spec fn apply_transfers(pre: Seq<AccountView>, reqs: Seq<TransferReq>) -> Seq<AccountView>
    decreases reqs.len(),
{
    if reqs.len() == 0 {
        pre
    } else {
        apply_transfers(
            spec_transfer(pre, reqs.first().from, reqs.first().to, reqs.first().amount, reqs.first().now).0,
            reqs.drop_first(),
        )
    }
}

/// One transfer, whatever its outcome, keeps the directory well formed and
/// the sum of all account balances unchanged: only a successful transfer
/// mutates anything, and it debits exactly what it credits.
pub proof fn lemma_transfer_preserves_total(
    pre: Seq<AccountView>,
    from: Seq<char>,
    to: Seq<char>,
    amount: u32,
    now: u64,
)
    requires
        directory_ok(pre),
    ensures
        sum_balances(spec_transfer(pre, from, to, amount, now).0) == sum_balances(pre),
        directory_ok(spec_transfer(pre, from, to, amount, now).0),
{
    let post = spec_transfer(pre, from, to, amount, now).0;
    if from != to && !(has_user(pre, to) && pre[user_index(pre, to)].balance + amount > u32::MAX)
        && has_user(pre, from) && has_user(pre, to) && !cooldown_active(
        pre[user_index(pre, from)],
        now,
    ) && pre[user_index(pre, from)].balance >= amount {
        let i = user_index(pre, from);
        let j = user_index(pre, to);
        assert(0 <= i < pre.len() && pre[i].username == from);
        assert(0 <= j < pre.len() && pre[j].username == to);
        assert(i != j);
        lemma_sum_update(pre, i, pre.update(i, post[i])[i]);
        lemma_sum_update(pre.update(i, post[i]), j, post[j]);
        assert(pre.update(i, post[i]).update(j, post[j]) =~= post);
        assert forall|a: int, b: int|
            #![trigger post[a], post[b]]
            0 <= a < b < post.len() implies post[a].username != post[b].username && post[a].handle
            != post[b].handle by {
            assert(pre[a].username != pre[b].username && pre[a].handle != pre[b].handle);
        }
    }
}

/// Invariant of the ledger: across any sequence of transfers only (no
/// deposits, no withdrawals), the sum of all account balances is unchanged.
pub proof fn lemma_transfers_preserve_total(pre: Seq<AccountView>, reqs: Seq<TransferReq>)
    requires
        directory_ok(pre),
    ensures
        sum_balances(apply_transfers(pre, reqs)) == sum_balances(pre),
        directory_ok(apply_transfers(pre, reqs)),
    decreases reqs.len(),
{
    if reqs.len() > 0 {
        let step = spec_transfer(
            pre,
            reqs.first().from,
            reqs.first().to,
            reqs.first().amount,
            reqs.first().now,
        ).0;
        lemma_transfer_preserves_total(
            pre,
            reqs.first().from,
            reqs.first().to,
            reqs.first().amount,
            reqs.first().now,
        );
        lemma_transfers_preserve_total(step, reqs.drop_first());
    }
}

} // verus!
