//! Verified core of a terminal system monitor: the sampling state behind the
//! CPU, memory and network histories, the key bindings, and the text and
//! figures that each screen of the monitor shows.

pub mod text;
pub mod units;
pub mod history;
pub mod layout;
pub mod monitor;
pub mod ranking;
pub mod view;
