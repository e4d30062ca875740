//! Assembly of a distributable package from the installed output of a build:
//! the record types of a build description, content digests, the manifest of
//! an installed tree, the package properties and the order of a build run.

pub mod digest;
pub mod objects;
pub mod run;
pub mod targets;
