//! Core of a small account/ledger service: a directory of accounts, an
//! atomic ledger engine (transfer, deposit, withdraw), credential checking,
//! and a bounded pool of reusable connection-like resources.

pub mod api;
pub mod cmdargs;
pub mod db;
pub mod keyhash;
pub mod model;
pub mod pool;
pub mod settings;
