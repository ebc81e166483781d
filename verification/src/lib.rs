//! Snapshot of a set of files and directories, addressed by stable identifiers,
//! together with the request logic that serves it over HTTP.

pub mod cli_args;
pub mod fs_object;
pub mod html_page;
pub mod html_page_utils;
pub mod http;
pub mod path;
pub mod server_receiver_mode;
pub mod server_transmitter_mode;
pub mod snapshot;
pub mod storage;
pub mod text;
