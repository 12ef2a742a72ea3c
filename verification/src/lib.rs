//! In-memory overlay of account state for a staking ledger: balances,
//! interest-bearing deposits, vote locks and pending storage writes, each
//! with a mathematical model and machine-checked contracts.

pub mod uint;
pub mod vote_stake;
pub mod deposit;
pub mod address;
pub mod hash;
pub mod storage_cache;
pub mod account;
pub mod overlay;
pub mod assoc;
pub mod context;
pub mod mock_context;
