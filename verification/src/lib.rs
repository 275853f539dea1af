//! An interactive command-line configuration manager, verified with Verus.
//!
//! The library holds everything the tool decides or computes: the sectioned
//! key-value configuration model, its textual format (rendering and parsing,
//! with a proved round trip), command dispatch, and the decision logic of the
//! `configure`, `configure list` and `reset` commands. The thin binary around
//! it only prompts, reads and writes files.

pub mod commands;
pub mod config;
pub mod format;
pub mod messages;
pub mod roundtrip;
pub mod text;

pub use config::Config;
pub use config::Entry;
pub use config::Section;
