//! A session and token lifecycle engine for an authentication backend:
//! minting, verification, rotation and revocation of access and refresh
//! credentials, with a single active session per identity. Every operation
//! carries a contract over the mathematical image of its state, and the
//! reconciliation policy that decides between reusing, rotating and
//! rejecting sessions is proved against those contracts.
pub mod auth;
pub mod claims;
pub mod codec;
pub mod config;
pub mod dto;
pub mod hexfmt;
pub mod password;
pub mod response;
pub mod session;
pub mod settings;
pub mod token;
pub mod user;
pub mod user_ops;
