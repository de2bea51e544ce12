//! The mathematical model of a session: what it holds, how each event changes
//! it, and what it writes.

use crate::stress::{CmdView, Config, SUCCESS};
use crate::text::{decimal, signed_decimal, text_of};
use vstd::prelude::*;

verus! {

/// The stage that a session has reached.
#[derive(Clone, Copy, Debug, PartialEq, Eq, Structural)]
pub enum Phase {
    /// Made, and not yet started.
    Idle,
    /// Started: the command is to be executed once more.
    Running,
    /// Stopped early by a run that ended with a non-zero exit code.
    Bailed,
    /// All the runs that were asked for have been executed.
    Completed,
    /// The report has been written.
    Reported,
    /// Over: finished after the report, or given up after a run that could
    /// not be classified.
    Done,
}

impl Phase {
    /// Whether one step can take a session from this stage to `next`: a
    /// session starts once, runs until it bails, completes or is given up,
    /// reports after it bailed or completed, and is over after that.
    pub open spec fn leads_to(self, next: Phase) -> bool {
        match self {
            Phase::Idle => next == Phase::Running || next == Phase::Completed,
            Phase::Running => next == Phase::Running || next == Phase::Bailed || next
                == Phase::Completed || next == Phase::Done,
            Phase::Bailed => next == Phase::Reported,
            Phase::Completed => next == Phase::Reported,
            Phase::Reported => next == Phase::Done,
            Phase::Done => false,
        }
    }
}

/// One run of the command that ended with an exit code.
pub struct Run {
    pub code: i32,
    pub stdout: Seq<u8>,
}

/// What a session knows of the runs that ended with one exit code.
pub struct Tally {
    pub exit_code: i32,
    /// How many runs ended with this exit code.
    pub runs: nat,
    /// What the first of them wrote to standard output, where that is kept.
    pub stdout: Option<Seq<char>>,
}

impl Tally {
    /// The word for how runs with this exit code ended: in a report with
    /// output a failure is called "failure", in a summary "fail".
    pub open spec fn label(self, with_output: bool) -> Seq<char> {
        if self.exit_code == SUCCESS {
            "success"@
        } else if with_output {
            "failure"@
        } else {
            "fail"@
        }
    }

    /// The exit code and the number of runs, as a summary shows them.
    pub open spec fn text(self) -> Seq<char> {
        signed_decimal(self.exit_code as int) + "\t\t"@ + decimal(self.runs)
    }

    /// The line of a summary for this exit code.
    pub open spec fn summary_row(self) -> Seq<char> {
        self.text() + "\t"@ + self.label(false) + "\n"@
    }

    /// The output that a report shows for this exit code: what was kept, or
    /// a note that nothing was.
    pub open spec fn shown_output(self) -> Seq<char> {
        match self.stdout {
            Some(text) => text,
            None => "No output recorded"@,
        }
    }

    /// The lines of a report with output for this exit code: a heading, and
    /// the output that was kept.
    pub open spec fn output_entry(self) -> Seq<char> {
        "Exit Code "@ + signed_decimal(self.exit_code as int) + " ("@ + self.label(true)
            + ") occurred "@ + decimal(self.runs) + " time(s). Output:\n"@ + self.shown_output()
            + "\n"@
    }

    /// What a report shows for this exit code.
    pub open spec fn entry(self, with_output: bool) -> Seq<char> {
        if with_output {
            self.output_entry()
        } else {
            self.summary_row()
        }
    }
}

/// What a report shows for the exit codes in `codes`, in that order.
pub open spec fn entries(table: Map<i32, Tally>, codes: Seq<i32>, with_output: bool) -> Seq<char>
    decreases codes.len(),
{
    if codes.len() == 0 {
        Seq::empty()
    } else {
        entries(table, codes.drop_last(), with_output) + table[codes.last()].entry(with_output)
    }
}

/// How many of `runs` ended with `code`.
pub open spec fn occurrences(runs: Seq<Run>, code: i32) -> nat
    decreases runs.len(),
{
    if runs.len() == 0 {
        0
    } else if runs.first().code == code {
        1 + occurrences(runs.drop_first(), code)
    } else {
        occurrences(runs.drop_first(), code)
    }
}

/// The tallies with `run` counted in: its exit code has one run more, and
/// where output is kept and none is there yet, the output of `run`.
pub open spec fn tallied(table: Map<i32, Tally>, capture: bool, run: Run) -> Map<i32, Tally> {
    let before = if table.contains_key(run.code) {
        table[run.code]
    } else {
        Tally { exit_code: run.code, runs: 0, stdout: None }
    };
    let stdout = if capture && before.stdout is None {
        Some(text_of(run.stdout))
    } else {
        before.stdout
    };
    table.insert(run.code, Tally { exit_code: run.code, runs: before.runs + 1, stdout })
}

/// The number of runs that a table of tallies counts, all exit codes together.
pub open spec fn total(table: Map<i32, Tally>) -> nat
    decreases table.dom().len(),
    when table.dom().finite()
{
    if table.dom().len() == 0 {
        0
    } else {
        let code = table.dom().choose();
        table[code].runs + total(table.remove(code))
    }
}

/// Whether the exit codes in `codes` stand in strictly ascending order.
pub open spec fn ascending(codes: Seq<i32>) -> bool {
    forall|i: int, j: int| 0 <= i < j < codes.len() ==> codes[i] < codes[j]
}

/// Whether `codes` holds exactly the exit codes in `keys`, each once, in
/// ascending order.
pub open spec fn lists(codes: Seq<i32>, keys: Set<i32>) -> bool {
    &&& ascending(codes)
    &&& forall|code: i32|
        #![trigger keys.contains(code)]
        #![trigger codes.contains(code)]
        keys.contains(code) <==> codes.contains(code)
}

/// The exit codes in `keys` in ascending order.
pub open spec fn ascending_codes(keys: Set<i32>) -> Seq<i32> {
    choose|codes: Seq<i32>| lists(codes, keys)
}

/// The number of runs that the tallies of the exit codes in `codes` count.
pub open spec fn counted(table: Map<i32, Tally>, codes: Seq<i32>) -> nat
    decreases codes.len(),
{
    if codes.len() == 0 {
        0
    } else {
        counted(table, codes.drop_last()) + table[codes.last()].runs
    }
}

/// The state of a session.
pub struct Session {
    pub cmd: CmdView,
    pub config: Config,
    pub phase: Phase,
    /// How many runs have been executed and counted.
    pub executed: nat,
    /// The tallies, by exit code.
    pub table: Map<i32, Tally>,
}

impl Session {
    /// A session that has not started.
    pub open spec fn fresh(cmd: CmdView, config: Config) -> Session {
        Session { cmd, config, phase: Phase::Idle, executed: 0, table: Map::empty() }
    }

    /// What holds of a session at every stage. Each tally stands under its
    /// own exit code and counts at least one run, and holds output exactly
    /// where the session keeps output. The tallies count the runs executed,
    /// all together, and these are no more than were asked for. A running
    /// session has runs left to execute, a complete one has none, and only a
    /// session that is set to bail has bailed.
    pub open spec fn wf(self) -> bool {
        &&& self.table.dom().finite()
        &&& forall|code: i32| #[trigger]
            self.table.contains_key(code) ==> {
                &&& self.table[code].exit_code == code
                &&& self.table[code].runs >= 1
                &&& self.table[code].stdout is Some <==> self.config.output
            }
        &&& total(self.table) == self.executed
        &&& self.executed <= self.config.runs
        &&& match self.phase {
            Phase::Idle => self.executed == 0,
            Phase::Running => self.executed < self.config.runs,
            Phase::Bailed => self.config.bail && self.executed >= 1,
            Phase::Completed => self.executed == self.config.runs,
            Phase::Reported => true,
            Phase::Done => true,
        }
    }

    /// The session once it has started: it is running if any run was asked
    /// for, and complete at once if none was.
    pub open spec fn started(self) -> Session {
        Session {
            phase: if self.config.runs == 0 {
                Phase::Completed
            } else {
                Phase::Running
            },
            ..self
        }
    }

    /// The session once `run` has been counted: it has bailed if it is set
    /// to and the run failed, is complete if that was the last run asked
    /// for, and goes on running otherwise.
    pub open spec fn recorded(self, run: Run) -> Session {
        Session {
            phase: if self.config.bail && run.code != SUCCESS {
                Phase::Bailed
            } else if self.executed + 1 >= self.config.runs {
                Phase::Completed
            } else {
                Phase::Running
            },
            executed: self.executed + 1,
            table: tallied(self.table, self.config.output, run),
            ..self
        }
    }

    /// The session once it has been given up: over, with no report.
    pub open spec fn aborted(self) -> Session {
        Session { phase: Phase::Done, ..self }
    }

    /// The session once its report has been written.
    pub open spec fn reported(self) -> Session {
        Session { phase: Phase::Reported, ..self }
    }

    /// The session once its last line has been written.
    pub open spec fn finished(self) -> Session {
        Session { phase: Phase::Done, ..self }
    }

    /// What a session writes when it starts.
    pub open spec fn start_banner(self) -> Seq<char> {
        "Starting "@ + decimal(self.config.runs as nat) + " runs of \""@ + self.cmd.text()
            + "\"...\n"@
    }

    /// The report: an entry for each exit code that was seen, in ascending
    /// order of the exit codes. Where output is kept each entry shows the
    /// output; where it is not, the report is a table under a heading.
    pub open spec fn report_text(self) -> Seq<char> {
        let codes = ascending_codes(self.table.dom());
        if self.config.output {
            entries(self.table, codes, true)
        } else {
            "Exit Code\tRuns\tResult\n"@ + entries(self.table, codes, false)
        }
    }

    /// The number of runs that the entries of the report count, all
    /// together.
    pub open spec fn reported_runs(self) -> nat {
        counted(self.table, ascending_codes(self.table.dom()))
    }

    /// What a session writes after its report.
    pub open spec fn completion_banner(self) -> Seq<char> {
        "Completed "@ + decimal(self.executed) + " runs of \""@ + self.cmd.text() + "\"\n"@
    }

    /// How many runs the session has counted for `code`.
    pub open spec fn runs_of(self, code: i32) -> nat {
        if self.table.contains_key(code) {
            self.table[code].runs
        } else {
            0
        }
    }

    /// The session after the runs in `runs` were offered to it in order: it
    /// counts them for as long as it is running and leaves the rest out.
    pub open spec fn replayed(self, runs: Seq<Run>) -> Session
        decreases runs.len(),
    {
        if runs.len() == 0 || self.phase != Phase::Running {
            self
        } else {
            self.recorded(runs.first()).replayed(runs.drop_first())
        }
    }
}

} // verus!
