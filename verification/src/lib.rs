//! Real-time delivery core of a multi-user chat service.
//!
//! The crate models the live message path: a session registry, an ordered
//! lossy event bus, per-delivery membership filtering with ghost-mode
//! masking, scheduled-message promotion, and the ownership rules for
//! message mutation (edit, delete, reaction, pin).

pub mod auth;
pub mod bus;
pub mod clock;
pub mod command;
pub mod event;
pub mod filter;
pub mod groups_api;
pub mod history;
pub mod pump;
pub mod scheduler;
pub mod reaction;
pub mod registry;
pub mod store;
pub mod topics;
pub mod text;
