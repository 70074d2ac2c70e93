//! Verified core of a driver for Supvan label printers: the command and bulk
//! framing, the print-buffer layout, the LZMA page container and the decisions
//! of the print flows.

pub mod bt_transport;
pub mod buffer;
pub mod cli;
pub mod cmd;
pub mod compress;
pub mod data;
pub mod date;
pub mod device;
pub mod directory;
pub mod error;
pub mod flow;
pub mod job;
pub mod printer;
pub mod raster;
pub mod status;
pub mod text;
pub mod wire;
