//! Fetch-free core of a basketball power-rankings report tool.
//!
//! The library holds everything that can be stated and proved: locating the
//! JSON payload embedded in an HTML page, resolving raw ranking entries,
//! indexing a game schedule over a date window, calendar arithmetic, and
//! rendering the final report lines. Network I/O lives outside, in the
//! accompanying application, which hands plain values in and out.

pub mod dates;
pub mod errors;
pub mod extract;
pub mod json;
pub mod schema;
pub mod order;
pub mod rankings;
pub mod report;
pub mod schedule;

pub use errors::RunError;
pub use errors::check_status;
