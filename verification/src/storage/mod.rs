//! What the database decides: which requests are refused, what is read and written for the others,
//! and how the answers are put together.

pub mod commit;
pub mod epochs;
pub mod error;
pub mod event_log;
pub mod events;
pub mod history;
pub mod options;
pub mod outcomes;
pub mod paging;
pub mod readback;
pub mod saving;
pub mod snapshot;
pub mod state;
pub mod transactions;
