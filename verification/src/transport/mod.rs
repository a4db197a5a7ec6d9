//! What is known of the peer of a connection.

pub mod identity;

pub use self::identity::{Identity, IdentityView};
