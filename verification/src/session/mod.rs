//! The decisions of a client session's services: which local files are
//! sent for a sync request, which requested file is served, and how an image
//! load ends.
pub mod filesend;
pub mod filesync;
pub mod paths;
