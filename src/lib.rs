//! The core of a terminal client for composing and sending HTTP requests: requests and
//! environments grouped into collections, their name-keyed on-disk form, the debug log
//! ring, and the state machine that key presses drive.
pub mod client;
pub mod collection;
pub mod headers;
pub mod logging;
pub mod model;
pub mod state;
pub mod update;
pub mod util;
pub mod widgets;
