//! A global registry of user profiles.
//!
//! A validated, human-chosen username maps to exactly one owning account. Each
//! account holds one profile record and any number of typed key/value fields.
//! Every operation is a function of the host it runs on: the host supplies
//! storage, the authorizations of the current invocation, the ledger sequence
//! and the notification channel.

pub mod address;
pub mod bytes;
pub mod contract;
pub mod error;
pub mod events;
pub mod fields;
pub mod format;
pub mod host;
pub mod laws;
pub mod memory;
pub mod profile;
pub mod registry;
pub mod standard_fields;
pub mod storage;
pub mod validation;

pub use address::Address;
pub use contract::UserProfileContract;
pub use error::ProfileError;
pub use fields::FieldValue;
pub use host::Host;
pub use memory::MemoryHost;
pub use profile::Profile;
pub use storage::ProfileKey;
pub use validation::{
    normalize_username, validate_username, MAX_USERNAME_LENGTH, MIN_USERNAME_LENGTH,
};
