//! Package formats that a build can be assembled into.

pub mod xbps;
