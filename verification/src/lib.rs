//! Installs locally written scripts into the scripts directories of the users
//! registered below a root directory.
//!
//! The library decides; its caller reads and writes the disk. The caller
//! expands the patterns and lists the root directory, hands what it found to
//! [`Cli::run`], carries out the plans that come back, and reports each
//! outcome to a [`tally::Tally`].
use vstd::prelude::*;

pub mod effect;
pub mod laws;
pub mod names;
pub mod paths;
pub mod plan;
pub mod resolve;
pub mod root;
pub mod script;
pub mod sync;
pub mod tally;
pub mod user;

use plan::UserPlan;
use sync::{fails_on_pattern, fails_on_root, succeeds_with, Discovery, Sync, SyncError};

verus! {

/// The command line, once read.
#[derive(Clone, Debug)]
pub struct Cli {
    pub command: Command,
}

/// What the command line asks for.
#[derive(Clone, Debug)]
pub enum Command {
    /// Install the scripts for every registered user.
    Sync(Sync),
}

impl Cli {
    /// Runs the command on what was found on disk, and leaves the command
    /// line as it was.
    pub fn run(&mut self, found: &Discovery) -> (r: Result<Vec<UserPlan>, SyncError>)
        ensures
            *final(self) == *old(self),
            match old(self).command {
                Command::Sync(cmd) => match r {
                    Ok(plans) => succeeds_with(cmd.clean, *found, plans@),
                    Err(e) => fails_on_pattern(*found, e) || fails_on_root(*found, e),
                },
            },
    {
        match &self.command {
            Command::Sync(cmd) => cmd.run(self, found),
        }
    }

    /// The status with which the process ends: 0 after a pass that succeeded,
    /// 1 after one that failed.
    pub fn exit_status(outcome: &Result<Vec<UserPlan>, SyncError>) -> (status: u8)
        ensures
            status == if outcome is Ok { 0u8 } else { 1u8 },
    {
        match outcome {
            Ok(_) => 0,
            Err(_) => 1,
        }
    }
}

} // verus!
