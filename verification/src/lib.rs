//! Guild workflow engine: ticket and giveaway state machines, per-guild
//! ticket numbering, randomized winner selection, a time-driven scheduler
//! over punishments, giveaways and reminders, session resolution, and the
//! subscription filter of the dashboard event fan-out.

pub mod auth;
pub mod fanout;
pub mod giveaways;
pub mod leveling;
pub mod moderation;
pub mod models;
pub mod sampler;
pub mod scheduler;
pub mod sessions;
pub mod suggestions;
pub mod tickets;
