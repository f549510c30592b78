//! Bounded, token-budgeted conversational context for a multi-agent chat:
//! mention extraction, content compression, token estimation, the history
//! file records and the rules for assembling and creating messages.

pub mod text;
pub mod mentions;
pub mod compress;
pub mod ids;
pub mod history;
pub mod tokens;
pub mod meta;
pub mod context;
pub mod create;
pub mod presets;
