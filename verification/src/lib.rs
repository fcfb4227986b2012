//! The verified core of the ftx FTP/SFTP client.

use vstd::prelude::*;

pub mod batch;
pub mod connection;
pub mod crypto;
pub mod engine;
pub mod host;
pub mod keyed;
pub mod listing;
pub mod path;
pub mod pipeline;
pub mod progress;
pub mod settings;
pub mod sftp;
pub mod text;
pub mod transfer;
pub mod walk;

verus! {

} // verus!
