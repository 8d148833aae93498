//! A sans-IO transport system: transports are state machines that take
//! items in and hand items out, and a [`driver::Driver`] routes the items
//! between them along the connections it keeps.


pub mod arc_utils;
pub mod dispatcher;
pub mod driver;
pub mod marker;
pub mod splice;
pub mod task;
pub mod transport;
pub mod transports;
