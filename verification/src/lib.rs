//! Verified core of a terminal network toolkit: link/network/transport
//! header decoding, the packet-capture list model, the port-scan planner
//! and the keyboard-driven state machines of the user interface.

pub mod app_state;
pub mod banner;
pub mod bytes;
pub mod components;
pub mod contents;
pub mod event;
pub mod main_content;
pub mod packet;
pub mod scan;
pub mod sniffer;
pub mod text;
pub mod view;
