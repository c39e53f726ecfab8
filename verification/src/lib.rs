//! Locating executables on a search path: the verified core of the `where` command.
pub mod text;
pub mod shell;
pub mod dedup;
pub mod format;
pub mod process;
pub mod container;
pub mod options;
pub mod binary;
pub mod paths;
pub mod order;
pub mod suggest;
pub mod probe;
pub mod record;
pub mod index;
pub mod render;
pub mod report;
pub mod sections;
