//! Run a command many times over and tally how it ended.
//!
//! A [`stress::Stress`] session is made from a command line, started, and
//! then told what came of each attempt to execute the command, for as long
//! as it is running. It counts the runs by exit code, stops early where it
//! is set to bail at the first failure, and in the end writes a report with
//! an entry for each exit code, in ascending order. The session executes
//! nothing and prints nothing itself: it says in which stage it is, and
//! hands back the text to write.
//!
//! [`session`] holds the model that the contracts speak of, [`laws`] what is
//! proved of every session, and [`text`] the building of the text.

use crate::stress::{CmdView, Config};
use crate::text::texts;
use vstd::prelude::*;

pub mod laws;
pub mod session;
pub mod stress;
pub mod text;

verus! {

/// The settings of one session, as given on the command line.
#[derive(Debug)]
pub struct Cli {
    /// The program to run, followed by its arguments.
    pub cmd: Vec<String>,
    /// Stop at the first run that ends with a non-zero exit code.
    pub bail: bool,
    /// Keep what the runs wrote to standard output, and show it in the report.
    pub output: bool,
    /// How many times to run the command.
    pub runs: usize,
}

impl Cli {
    /// A command line names at least the program to run.
    pub open spec fn valid(&self) -> bool {
        self.cmd@.len() >= 1
    }

    /// The command that the command line names: its first word is the
    /// program, the words after it are the arguments.
    pub open spec fn command(&self) -> CmdView {
        CmdView {
            program: self.cmd@[0]@,
            args: texts(self.cmd@.subrange(1, self.cmd@.len() as int)),
        }
    }

    /// The settings that the command line gives.
    pub open spec fn config(&self) -> Config {
        Config { bail: self.bail, output: self.output, runs: self.runs }
    }
}

impl Clone for Cli {
    fn clone(&self) -> (copy: Cli)
        ensures
            copy.cmd@ == self.cmd@,
            copy.bail == self.bail,
            copy.output == self.output,
            copy.runs == self.runs,
    {
        let cmd = self.cmd.clone();
        Cli { cmd, bail: self.bail, output: self.output, runs: self.runs }
    }
}

} // verus!
