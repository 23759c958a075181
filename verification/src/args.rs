//! The validated command-line surface, as plain data: which subcommand runs
//! and with which report window and output mode.

use vstd::prelude::*;

verus! {

/// The parsed invocation.
#[derive(Debug)]
pub struct Args {
    pub commands: Commands,
}

/// The two subcommands: managing stored sources, or producing one report.
#[derive(Debug)]
pub enum Commands {
    Configure { configure_commands: ConfigureCommands },
    Report {
        /// Which stored calendar source the report reads.
        ics_index: usize,
        /// The month to filter on, 1 to 12, or no month filter.
        month: Option<u32>,
        /// The year to filter on, or no year filter.
        year: Option<i32>,
        output_format: OutFormat,
    },
}

/// The configuration subcommands.
#[derive(Debug)]
pub enum ConfigureCommands {
    Ics { ics_commands: IcsCommands },
    Clear,
}

/// The operations on the stored source list.
#[derive(Debug)]
pub enum IcsCommands {
    List,
    Add { name: String, link: String },
    Remove { index: usize },
}

/// How the finished report is rendered.
#[derive(Clone, Copy, PartialEq, Eq, Structural, Debug)]
pub enum OutFormat {
    Table,
    Pdf,
}

impl Default for OutFormat {
    /// The table rendering, as when no format is named.
    fn default() -> (r: Self)
        ensures
            r == OutFormat::Table,
    {
        OutFormat::Table
    }
}

} // verus!
