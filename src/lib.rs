//! A MAVLink message router core: frame handling, frame reading, tlog
//! records, driver accounting and the statistics engine.

pub mod frame;
pub mod reader;
pub mod stats;
pub mod actor;
pub mod tlog;
pub mod drivers;
pub mod endpoints;
pub mod hub;
pub mod logs;
