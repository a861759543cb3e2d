//! The verified core of the Plex catalog backend.
pub mod auth;
pub mod crypto;
pub mod db;
pub mod error;
pub mod json;
pub mod ldap;
pub mod models;
pub mod oidc;
pub mod pings;
pub mod plex;
pub mod requests;
pub mod resolution;
pub mod seqs;
pub mod sync;
pub mod text;
pub mod versions;
