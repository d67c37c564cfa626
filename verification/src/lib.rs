//! Validation of OAuth bearer tokens for PostgreSQL, against the keys that an OpenID Connect
//! issuer publishes.
//!
//! Backends hand tokens to one background worker through slots in shared memory. The worker reads
//! a token's key ID, looks the key up among those it has fetched from the issuer, and has the
//! token checked with it. The subject of a token that checks out is the authenticated identity.
//!
//! - [`slot`] and [`queue`] are the slots and the queue of those that wait for the worker;
//!   [`shared`] puts them together and holds the steps of both sides.
//! - [`jwks`] is the issuer's key set and its cache, [`jwt`] the boundary to the token library,
//!   and [`validator`] the validation of one token; [`error`] lists why one is refused.
//! - [`callback`] is the validation callback that the server calls.
//! - [`behaviour`] and [`exchange`] state what each operation does, of its inputs and results alone;
//!   [`laws`] states what holds of the steps taken together.
//!
//! The library does no I/O, reads no clock and takes no lock. Where a validation needs the
//! issuer's keys, it says so and is resumed with them; times are arguments; and each step on the
//! shared state is to be taken under a lock.

pub mod behaviour;
pub mod callback;
pub mod error;
pub mod exchange;
pub mod jwks;
pub mod jwt;
pub mod laws;
pub mod queue;
pub mod shared;
pub mod slot;
pub mod text;
pub mod validator;

pub use callback::{ValidatorModuleResult, PG_OAUTH_VALIDATOR_MAGIC};
pub use validator::{OidcTokenValidator, TokenValidator, ValidationResult};
