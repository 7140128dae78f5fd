//! VidDeck: a video library served to the browser. This crate holds the
//! decisions of the server: the catalog of videos, request checks, the
//! command lines given to FFmpeg and the formatting of values for display.

pub mod catalog;
pub mod cli;
pub mod html;
pub mod laws;
pub mod media;
pub mod net;
pub mod paths;
pub mod requests;
pub mod scanner;
pub mod size;
pub mod text;
