//! A key-value store of versioned account records.
//!
//! Records written under an earlier layout stay readable for ever: every
//! layout that was once in use is a variant of [`VersionedAccount`], every read
//! brings the stored variant to the current [`Account`], and every write
//! stores the current variant. The root object that owns the store is a
//! [`Counter`], which can be rebuilt from the bytes that its predecessor
//! left behind.
pub mod account;
pub mod codec;
pub mod counter;
pub mod error;
pub mod store;
pub mod wire;

pub use account::{Account, AccountV1, AccountV2, BlockHeight, VersionedAccount};
pub use counter::{layout, Counter, Layout, OldCounter, StorageKey};
pub use error::StoreError;
pub use store::{AccountId, RecordStore};
