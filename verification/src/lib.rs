//! The decision-making core of a controller that turns compose-style
//! application resources into cluster workloads.
//!
//! The crate holds no I/O. A service definition is translated into a workload
//! manifest by [`translate::translate`]; [`dispatch::handle`] turns one
//! lifecycle event into the gateway calls it asks for; [`watch::WatchLoop`]
//! says, step by step, what the process around it has to do next.

pub mod dispatch;
pub mod labels;
pub mod manifest;
pub mod service;
pub mod translate;
pub mod watch;
