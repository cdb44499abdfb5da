//! A constant-product automated market maker: pools of two fungible assets,
//! proportional ownership shares, exact-in and exact-out swaps with a fee,
//! and a spot-price query, over an in-crate asset ledger and pool registry.
//!
//! Every caller-facing operation is a verified state transition on
//! [`pallet::Pallet`], whose contract ties it to a specification-level
//! transition function on [`state::AmmState`]; the general laws of the
//! engine are proved in [`laws`].

pub mod ids;
pub mod interface;
pub mod laws;
pub mod math;
pub mod pallet;
pub mod state;
pub mod transitions;
pub mod types;

pub use interface::DexInterface;
pub use pallet::Pallet;
pub use types::BalanceType;
pub use types::Config;
pub use types::DispatchResult;
pub use types::Error;
pub use types::Event;
