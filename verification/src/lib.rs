//! Transfer core of a local-network file-sharing application: peer
//! discovery over UDP broadcast and a resumable, controllable download
//! manager, with the decisions of both stated as contracts.

pub mod text;
pub mod transfer;
pub mod runs;
pub mod filename;
pub mod records;
pub mod registry;
pub mod ifaces;
pub mod discovery;
pub mod server;
pub mod download;
