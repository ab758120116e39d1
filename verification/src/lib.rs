//! Device and topic monitoring: the rules by which pulses are classified,
//! statuses are derived from ages, listings are filtered and ordered, and
//! host addresses and API URLs are built.

pub mod text;
pub mod time;
pub mod status;
pub mod host;
pub mod json;
pub mod datatype;
pub mod order;
pub mod listing;
pub mod password;
pub mod server;
pub mod credentials;
pub mod pulses;
pub mod trigger;
pub mod events;
pub mod sensor;
pub mod image;
pub mod location;
pub mod dashboard;
pub mod payload;
pub mod client;
pub mod store;
pub mod commands;
pub mod assets;
