//! The first generation of the pages, kept for the pages built on the
//! `controls` interface: a start page and a button-driven scan page.

pub mod main_content;
pub mod scan_ports;
