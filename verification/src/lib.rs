//! A gated link-sharing service: a creator shortens a URL, and the short link
//! resolves for a recipient only after that recipient has registered with
//! their name and email and confirmed ownership of the email through a
//! one-time token.
//!
//! The core is the recipient confirmation and access-control workflow:
//! collision-resistant identifier generation, a token lifecycle that only
//! moves from `Pending` to `Confirmed`, reconciliation of duplicate
//! registrations, and the terminal access decision (redirect, deny, or
//! "not yet registered").

pub mod clock;
pub mod domain;
pub mod email;
pub mod find;
pub mod idgen;
pub mod laws;
pub mod links;
pub mod register;
pub mod store;
pub mod strutil;
pub mod urls;
