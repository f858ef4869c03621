//! Close-claim corpus classifier, warrant registry checks, audit verdicts and
//! docket reporting decisions.

pub mod archive;
pub mod classifier;
pub mod docket;
pub mod model;
pub mod paths;
pub mod registry;
pub mod reporter;
pub mod runner;
pub mod source;
pub mod text;
