//! Verified logic of the Chipmunk tooling: the text search over log files,
//! the benchmark selection of the command line tool and the release tool
//! that packages the alpha application.
pub mod text;
pub mod toml;
pub mod path;
pub mod release;
pub mod args;
pub mod codesign;
pub mod plan;
pub mod grep;
pub mod pattern;
pub mod bench;
