//! The command line of the server.
use vstd::prelude::*;

verus! {

/// The options of the server.
pub struct Args {
    /// Directory with the videos
    pub path: String,
    /// Port to listen on
    pub port: u16,
    /// Address to listen on: an IP address (IPv6 with or without brackets) or a hostname
    pub host: String,
    /// Follow changes to the directory while running
    pub watch: bool,
    /// Replace the System, Browser and Folder buttons with playback in the browser
    pub remote: bool,
    /// Disable renaming
    pub read_only: bool,
    /// The ffmpeg program to use; ffprobe is taken from the same directory
    pub ffmpeg: Option<String>,
}

} // verus!
