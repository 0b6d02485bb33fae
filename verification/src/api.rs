//! Typed request, response and claim records exchanged with the excluded
//! HTTP layer. These carry only plain values in and out of the core.

use vstd::prelude::*;

verus! {

/// Claims carried by a signed session token.
pub struct Token {
    pub username: String,
    pub is_admin: bool,
}

/// Represents an amount of money. Limited to `u32` by the store's native
/// integer width: this caps the maximum representable balance and is a hard
/// system limit.
pub type Balance = u32;

/// Represents a money transfer between two users.
pub struct Transfer {
    pub source: String,
    pub target: String,
    pub ammount: Balance,
}

/// Why a submitted token was not accepted.
#[derive(Debug, PartialEq, Eq, Structural)]
pub enum TokenError {
    Missing,
    Invalid,
}

pub struct LoginRequest {
    pub username: String,
    pub key: String,
}

pub struct DropRequest {
    pub username: String,
    pub token: Token,
}

pub struct TransferRequest {
    pub to: String,
    pub amount: u32,
}

pub struct WithdrawRequest {
    pub amount: u32,
}

/// One append-only history record: who sent, who received, how much.
pub struct HistoryEntry {
    pub from: String,
    pub to: String,
    pub amount: u32,
}

pub struct DepositRequest {
    pub username: String,
    pub amount: u32,
}

pub struct AdminWithdrawRequest {
    pub username: String,
    pub amount: u32,
}

pub struct RegisterRequest {
    pub username: String,
    pub name: String,
    pub key: String,
}

} // verus!
