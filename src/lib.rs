//! Version manager core for the Compact compiler toolchain: version
//! specifiers, the release catalogue, the on-disk layout, the "current
//! compiler" link and the install pipeline.

pub mod text;
pub mod catalogue;
pub mod cli;
pub mod console;
pub mod install;
pub mod layout;
pub mod link;
pub mod target;
pub mod version;

pub use self::{
    cli::{
        Command, CommandLineArguments, CompactUpdateConfig, ListCommand, SSelf, UpdateCommand,
    },
    layout::CompactDirectory,
    target::Target,
};
