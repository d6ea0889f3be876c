//! Core of a client for a line-oriented, TLS-wrapped hypertext protocol:
//! response parsing and classification, the lightweight markup parser,
//! redirect-following navigation as a state machine, tab history with
//! branching, and the certificate trust policy.
//!
//! Network and rendering live outside this crate; they drive the navigation
//! state machine and hand it raw response bytes.

pub mod gemtext;
pub mod history;
pub mod nav;
pub mod response;
pub mod tab;
pub mod text;
pub mod trust;
pub mod urls;

use vstd::prelude::*;

verus! {

/// URL scheme of the wire protocol this client speaks.
pub const SCHEME: &'static str = "gemini";

/// Well-known port of the protocol, used when a URL names none.
pub const PORT: u16 = 1965;

} // verus!
