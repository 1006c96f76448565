//! Core of a small login service: token issuance and verification, an
//! in-memory revocation registry, the request gate that combines the two,
//! and a structured password generator with its registration-time policy.
//!
//! Everything here works on plain values; reading headers, the database and
//! the clock's wall socket stay with the surrounding application.

mod auth;
mod chars;
mod denylist;
mod errors;
mod generator;
mod greet;
mod middleware;
mod policy;
mod session;

pub use auth::TokenCodec;
pub use auth::TOKEN_VALIDITY_SECS;
pub use auth::claims_of;
pub use auth::token_of;
pub use auth::create_jwt;
pub use auth::create_jwt_at;
pub use auth::decode_jwt;
pub use auth::decode_jwt_at;
pub use auth::verify_outcome;
pub use auth::result_view;
pub use auth::lemma_fresh_token_verifies;
pub use middleware::AuthMiddleware;
pub use middleware::AuthMiddlewareService;
pub use middleware::extract_bearer_token;
pub use middleware::gate_outcome;
pub use middleware::header_token;
pub use middleware::header_view;
pub use middleware::lemma_revoked_subject_rejected;
pub use middleware::spec_bearer_token;
pub use middleware::spec_has_bearer_prefix;
pub use denylist::Denylist;
pub use denylist::lemma_clear_readmits;
pub use chars::spec_is_ascii_letter;
pub use chars::spec_is_digit;
pub use chars::spec_is_lowercase;
pub use chars::spec_is_uppercase;
pub use chars::unicode_alphanumeric;
pub use chars::unicode_fold_lower;
pub use chars::unicode_lowercase;
pub use chars::unicode_uppercase;
pub use errors::AuthError;
pub use errors::lemma_token_failures_share_message;
pub use errors::LoginError;
pub use errors::PolicyError;
pub use errors::TokenError;
pub use generator::GROUP_SIZE;
pub use generator::NUM_GROUPS;
pub use generator::char_group_chain_ok;
pub use generator::char_last_letter_before;
pub use generator::char_slot_chain_ok;
pub use generator::generate_password;
pub use generator::generate_virtual_word;
pub use generator::group_chain_ok;
pub use generator::group_of;
pub use generator::is_consecutive;
pub use generator::last_letter_before;
pub use generator::slot_is_letter;
pub use generator::slot_chain_ok;
pub use generator::slot_is_lower;
pub use generator::spec_is_consecutive;
pub use generator::spec_password_ok;
pub use generator::spec_password_shape;
pub use generator::unwrap_group;
pub use greet::greet_message;
pub use policy::spec_password_accepted;
pub use policy::validate_password;
pub use session::delete_user;
pub use session::login;
pub use session::logout;
