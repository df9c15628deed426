//! Signal-strength monitoring for the Wi-Fi access point the adapter is associated with.
//!
//! The library holds the decisions of the monitor: the rolling window of RSSI samples and the
//! chart bounds drawn from it (`window`), what the sampler reports (`status`), the events the
//! application reacts to and how terminal input maps onto them (`event`), the sampler that
//! watches the association and numbers each target (`sampler`), the keybind legend and its
//! click targets (`legend`), the application state (`monitor`), and the parsers for what the
//! platform scanners report (`scan`). Reading the hardware, the terminal and the clock, and
//! drawing, are left to the program that drives it.
pub mod event;
pub mod legend;
pub mod monitor;
pub mod sampler;
pub mod scan;
pub mod status;
pub mod window;
