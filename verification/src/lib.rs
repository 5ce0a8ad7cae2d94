//! Monitors a social-media account for new posts and measures whether the
//! BTC market price rises in the window after each post.  The crate holds the
//! verified core: the statistics store, the per-event tracking session, the
//! polling orchestrator, and the parsers for the detector's output and the
//! market-data JSON.  Process plumbing (command execution, HTTP, threads)
//! lives outside the library and hands plain values in.

pub mod decimal;
pub mod monitor;
pub mod orchestrator;
pub mod price;
pub mod session;
pub mod stats;
pub mod text;
