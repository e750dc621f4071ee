//! Client-side state-synchronization core for a messaging client.
//!
//! The crate ingests batches of state changes produced by a synchronization
//! loop, folds them into a durable store and an in-memory room table, and
//! exposes that table as a live, ordered, filterable room list with
//! change-diff notifications.

pub mod changes;
pub mod errors;
pub mod filters;
pub mod ids;
pub mod memory_store;
pub mod notification;
pub mod observable_map;
pub mod pipeline;
pub mod room_info;
pub mod rooms;
pub mod sc_room_list;
pub mod schildi;
pub mod sorters;
pub mod space_child_info;
pub mod store;
pub mod store_config;
pub mod strmap;
pub mod traits;

pub use schildi::{ScInboxSettings, ScSortOrder};
