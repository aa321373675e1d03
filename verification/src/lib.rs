//! Client logic for the MotionTag travel-tracking REST API: exchange the
//! credentials of an account for a bearer token, or take a token as it is
//! given, and list the days that the account has recorded.
//!
//! The crate decides and never sends. [`flow`] runs the program as a state
//! machine that names the next request and takes the reply to it;
//! [`motion_tag`] builds the two requests and reads the two responses;
//! [`wire`], [`json`], [`text`] and [`error`] hold the values that they
//! work on. Contracts speak of the mathematical value of what a function
//! takes and returns, and the laws of a module stand at its end as proof
//! functions.
//!
//! Three things are taken on trust, each behind a contract of its own: that
//! decoding a text with `serde_json` and copying what it yields gives the
//! same document for the same bytes every time ([`json::decoded`]), that
//! `HeaderValue::from_str` admits a text exactly if each of its bytes is a
//! tab or at least 32 and other than 127, and that `String::push` appends
//! one character.

pub mod error;
pub mod flow;
pub mod json;
pub mod motion_tag;
pub mod text;
pub mod wire;
