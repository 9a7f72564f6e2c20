//! SherPresent: presentation remote-control logic shared by the desktop app,
//! the USB clicker bridge and the Canva importer.
//!
//! Every module here is plain computation over values; sockets, files,
//! processes and GUI plumbing live outside this crate.

pub mod text;
pub mod split;
pub mod num;
pub mod adapters;
pub mod impress;
pub mod osc;
pub mod captions;
pub mod config;
pub mod channel;
pub mod discovery;
pub mod canva;
pub mod polling;
pub mod canva_remote;
pub mod bindings;
pub mod usb;
pub mod bridge;
pub mod applescript;
pub mod bridge_api;
pub mod bootstrap;
pub mod design;
pub mod scripts;
