//! A supervisor for Procfile-based applications: the rules that decide which
//! processes run, how their output is framed into lines, and how the group is
//! shut down.

pub mod decimal;
pub mod text;
pub mod procfile;
pub mod launch;
pub mod registry;
pub mod watcher;
pub mod shutdown;
pub mod stream;
pub mod log;
pub mod output;
pub mod opts;
pub mod export;
