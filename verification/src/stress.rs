//! The session: the command, its settings, and the tally of how the runs ended.

use crate::laws::{listing_is_ascending_codes, recording_keeps_valid, total_splits};
use crate::session::{ascending, entries, lists, Phase, Run, Session, Tally};
use crate::text::{decode_output, push_decimal, push_signed_decimal, texts, trim, trimmed};
use crate::Cli;
use std::collections::HashMap;
use vstd::prelude::*;
use vstd::std_specs::hash::*;
use vstd::std_specs::iter::IteratorSpec;
use vstd::string::*;

verus! {

/// The exit code of a run that succeeded.
pub const SUCCESS: i32 = 0;

/// The arguments passed to the program.
#[derive(Debug)]
pub struct Args {
    /// The arguments as they are handed to the program.
    pub list: Vec<String>,
}

impl View for Args {
    type V = Seq<Seq<char>>;

    open spec fn view(&self) -> Seq<Seq<char>> {
        texts(self.list@)
    }
}

impl Clone for Args {
    fn clone(&self) -> (copy: Args)
        ensures
            copy@ == self@,
    {
        let list = self.list.clone();
        Args { list }
    }
}

impl Args {
    /// The arguments, one after another, with nothing between them.
    pub open spec fn text(&self) -> Seq<char> {
        self@.flatten()
    }

    /// The arguments as one text: one after another, with nothing between them.
    pub fn to_text(&self) -> (text: String)
        ensures
            text@ == self.text(),
    {
        let mut text = String::new();
        let n = self.list.len();
        for i in 0..n
            invariant
                n == self.list@.len(),
                text@ == self@.take(i as int).flatten(),
        {
            broadcast use Seq::lemma_flatten_push;

            assert(self@.take(i + 1) =~= self@.take(i as int).push(self.list@[i as int]@));
            text.append(self.list[i].as_str());
        }
        assert(self@.take(n as int) =~= self@);
        text
    }
}

/// The command to be executed.
#[derive(Debug)]
pub struct Cmd {
    /// The name of the program to execute.
    pub program: String,
    /// The arguments to execute it with.
    pub args: Args,
}

/// What a command is made of: the program's name, and its arguments.
pub struct CmdView {
    pub program: Seq<char>,
    pub args: Seq<Seq<char>>,
}

impl CmdView {
    /// The command line as a session shows it: the program, a space and the
    /// arguments, without white space at either end.
    pub open spec fn text(self) -> Seq<char> {
        trimmed(self.program + seq![' '] + self.args.flatten())
    }
}

impl View for Cmd {
    type V = CmdView;

    open spec fn view(&self) -> CmdView {
        CmdView { program: self.program@, args: self.args@ }
    }
}

impl Clone for Cmd {
    fn clone(&self) -> (copy: Cmd)
        ensures
            copy@ == self@,
    {
        Cmd { program: self.program.clone(), args: self.args.clone() }
    }
}

impl Cmd {
    /// The command that a command line names: its first word is the program,
    /// the words after it are the arguments.
    pub fn new(cli: Cli) -> (cmd: Cmd)
        requires
            cli.valid(),
        ensures
            cmd@ == cli.command(),
    {
        let mut list = cli.cmd;
        let program = list.remove(0);
        Cmd { program, args: Args { list } }
    }

    /// The command line as a session shows it.
    pub fn to_text(&self) -> (text: String)
        ensures
            text@ == self@.text(),
    {
        let mut line = self.program.clone();
        line.append(" ");
        let args = self.args.to_text();
        line.append(args.as_str());
        proof {
            reveal_strlit(" ");
            assert(line@ =~= self@.program + seq![' '] + self@.args.flatten());
        }
        String::from_str(trim(line.as_str()))
    }
}

/// The settings of a session.
#[derive(Clone, Copy, Debug)]
pub struct Config {
    /// Stop at the first run that ends with a non-zero exit code.
    pub bail: bool,
    /// Keep what the runs wrote to standard output, and show it in the report.
    pub output: bool,
    /// How many times to run the command.
    pub runs: usize,
}

impl Config {
    /// The settings that a command line gives.
    pub fn new(cli: Cli) -> (config: Config)
        ensures
            config == cli.config(),
    {
        Config { bail: cli.bail, output: cli.output, runs: cli.runs }
    }
}

/// What is known of the runs that ended with one exit code.
#[derive(Debug)]
pub struct Outcome {
    pub exit_code: i32,
    /// How many runs ended with this exit code.
    pub runs: usize,
    /// What the first of them wrote to standard output, where that is kept.
    pub stdout: Option<String>,
}

impl View for Outcome {
    type V = Tally;

    open spec fn view(&self) -> Tally {
        Tally {
            exit_code: self.exit_code,
            runs: self.runs as nat,
            stdout: match self.stdout {
                Some(text) => Some(text@),
                None => None,
            },
        }
    }
}

impl Outcome {
    /// The word for how runs with this exit code ended: in a report with
    /// output a failure is called "failure", in a summary "fail".
    pub fn label(&self, with_output: bool) -> (label: &'static str)
        ensures
            label@ == self@.label(with_output),
    {
        if self.exit_code == SUCCESS {
            "success"
        } else if with_output {
            "failure"
        } else {
            "fail"
        }
    }

    /// The exit code and the number of runs, as a summary shows them.
    pub fn to_text(&self) -> (text: String)
        ensures
            text@ == self@.text(),
    {
        let mut text = String::new();
        push_signed_decimal(&mut text, self.exit_code);
        text.append("\t\t");
        push_decimal(&mut text, self.runs as u64);
        text
    }

    /// The line of a summary for this exit code.
    pub fn summary_row(&self) -> (row: String)
        ensures
            row@ == self@.summary_row(),
    {
        let mut row = self.to_text();
        row.append("\t");
        row.append(self.label(false));
        row.append("\n");
        row
    }

    /// The lines of a report with output for this exit code: a heading, and
    /// the output that was kept.
    pub fn output_entry(&self) -> (entry: String)
        ensures
            entry@ == self@.output_entry(),
    {
        let mut entry = String::from_str("Exit Code ");
        push_signed_decimal(&mut entry, self.exit_code);
        entry.append(" (");
        entry.append(self.label(true));
        entry.append(") occurred ");
        push_decimal(&mut entry, self.runs as u64);
        entry.append(" time(s). Output:\n");
        match &self.stdout {
            Some(stdout) => entry.append(stdout.as_str()),
            None => entry.append("No output recorded"),
        }
        entry.append("\n");
        entry
    }

    /// What a report shows for this exit code.
    pub fn entry(&self, with_output: bool) -> (entry: String)
        ensures
            entry@ == self@.entry(with_output),
    {
        if with_output {
            self.output_entry()
        } else {
            self.summary_row()
        }
    }
}

/// The tallies that a table of outcomes stands for.
pub open spec fn tallies(results: Map<i32, Outcome>) -> Map<i32, Tally> {
    Map::new(|code: i32| results.contains_key(code), |code: i32| results[code]@)
}

/// Why a session was given up.
#[derive(Clone, Copy, Debug, PartialEq, Eq, Structural)]
pub enum StressError {
    /// The program could not be started.
    LaunchFailure,
    /// The program was ended by a signal and left no exit code.
    AbnormalTermination,
}

/// What came of one attempt to execute the command.
#[derive(Debug)]
pub enum Attempt {
    /// The program could not be started.
    Refused,
    /// The program was started and has ended. It left an exit code unless a
    /// signal ended it, and the bytes that it wrote to standard output.
    Ended { code: Option<i32>, stdout: Vec<u8> },
}

impl StressError {
    /// The words that tell a user why the session was given up.
    pub open spec fn text(self) -> Seq<char> {
        match self {
            StressError::LaunchFailure => "failed to execute process"@,
            StressError::AbnormalTermination => "failed to exit cleanly"@,
        }
    }

    /// The words that tell a user why the session was given up.
    pub fn message(&self) -> (message: &'static str)
        ensures
            message@ == self.text(),
    {
        match self {
            StressError::LaunchFailure => "failed to execute process",
            StressError::AbnormalTermination => "failed to exit cleanly",
        }
    }
}

impl Attempt {
    /// The run that an attempt amounts to, or the reason why it is none.
    pub open spec fn verdict(self) -> Result<Run, StressError> {
        match self {
            Attempt::Refused => Err(StressError::LaunchFailure),
            Attempt::Ended { code: None, stdout } => Err(StressError::AbnormalTermination),
            Attempt::Ended { code: Some(code), stdout } => Ok(Run { code, stdout: stdout@ }),
        }
    }

    /// The exit code and the output of the run that an attempt amounts to,
    /// or the reason why it is none: the program was not started, or it left
    /// no exit code.
    pub fn classify(self) -> (result: Result<(i32, Vec<u8>), StressError>)
        ensures
            match self.verdict() {
                Ok(run) => result matches Ok((code, stdout)) && code == run.code && stdout@
                    == run.stdout,
                Err(error) => result == Err::<(i32, Vec<u8>), StressError>(error),
            },
    {
        match self {
            Attempt::Refused => Err(StressError::LaunchFailure),
            Attempt::Ended { code: None, stdout: _ } => Err(StressError::AbnormalTermination),
            Attempt::Ended { code: Some(code), stdout } => Ok((code, stdout)),
        }
    }
}

/// Puts `code` at its place in an ascending list of exit codes.
fn insert_ascending(codes: &mut Vec<i32>, code: i32)
    requires
        ascending(old(codes)@),
        !old(codes)@.contains(code),
    ensures
        ascending(final(codes)@),
        forall|other: i32|
            final(codes)@.contains(other) <==> other == code || old(codes)@.contains(other),
{
    let mut at: usize = 0;
    while at < codes.len() && codes[at] < code
        invariant
            at <= codes@.len(),
            codes@ == old(codes)@,
            forall|i: int| 0 <= i < at ==> codes@[i] < code,
        decreases codes@.len() - at,
    {
        at += 1;
    }
    let ghost before = codes@;
    codes.insert(at, code);
    proof {
        assert(forall|i: int| at <= i < before.len() ==> code < before[i]) by {
            if at < before.len() {
                assert(before.contains(before[at as int]));
            }
        }
        assert forall|other: i32|
            codes@.contains(other) <==> other == code || before.contains(other) by {
            if other == code {
                assert(codes@[at as int] == code);
            }
            if before.contains(other) {
                let i = before.index_of(other);
                if i < at {
                    assert(codes@[i] == other);
                } else {
                    assert(codes@[i + 1] == other);
                }
            }
            if codes@.contains(other) && other != code {
                let i = codes@.index_of(other);
                if i < at {
                    assert(before[i] == other);
                } else {
                    assert(before[i - 1] == other);
                }
            }
        }
    }
}

/// A session: the command, its settings, and the tally of how its runs ended.
pub struct Stress {
    cmd: Cmd,
    config: Config,
    results: HashMap<i32, Outcome>,
    phase: Phase,
    executed: usize,
}

impl View for Stress {
    type V = Session;

    closed spec fn view(&self) -> Session {
        Session {
            cmd: self.cmd@,
            config: self.config,
            phase: self.phase,
            executed: self.executed as nat,
            table: tallies(self.results@),
        }
    }
}

impl Stress {
    /// A session for the command and the settings that a command line gives.
    pub fn new(cli: Cli) -> (stress: Stress)
        requires
            cli.valid(),
        ensures
            stress@ == Session::fresh(cli.command(), cli.config()),
            stress@.wf(),
    {
        let cmd = Cmd::new(cli.clone());
        let config = Config::new(cli);
        let results: HashMap<i32, Outcome> = HashMap::new();
        let stress = Stress { cmd, config, results, phase: Phase::Idle, executed: 0 };
        assert(stress@.table =~= Map::empty());
        stress
    }

    /// Starts the session, and returns what it writes first: a line that
    /// names the command and the number of runs asked for.
    pub fn start(&mut self) -> (banner: String)
        requires
            old(self)@.wf(),
            old(self)@.phase == Phase::Idle,
        ensures
            final(self)@ == old(self)@.started(),
            final(self)@.wf(),
            banner@ == old(self)@.start_banner(),
    {
        let mut banner = String::from_str("Starting ");
        push_decimal(&mut banner, self.config.runs as u64);
        banner.append(" runs of \"");
        banner.append(self.cmd.to_text().as_str());
        banner.append("\"...\n");
        if self.config.runs == 0 {
            self.phase = Phase::Completed;
        } else {
            self.phase = Phase::Running;
        }
        banner
    }

    /// Takes in what came of one attempt to execute the command. A run that
    /// ended with an exit code is counted, whatever the code, and the stage
    /// that the session is in afterwards is returned. An attempt that gave
    /// no exit code ends the session with the reason, and nothing is counted.
    pub fn record(&mut self, attempt: Attempt) -> (result: Result<Phase, StressError>)
        requires
            old(self)@.wf(),
            old(self)@.phase == Phase::Running,
        ensures
            final(self)@.wf(),
            match attempt.verdict() {
                Ok(run) => final(self)@ == old(self)@.recorded(run) && result == Ok::<
                    Phase,
                    StressError,
                >(final(self)@.phase),
                Err(error) => final(self)@ == old(self)@.aborted() && result == Err::<
                    Phase,
                    StressError,
                >(error),
            },
    {
        match attempt.classify() {
            Ok((exit_code, stdout)) => {
                self.tally(exit_code, stdout);
                Ok(self.phase)
            },
            Err(error) => {
                self.phase = Phase::Done;
                Err(error)
            },
        }
    }

    /// The exit codes that have been seen, in ascending order.
    pub fn codes(&self) -> (codes: Vec<i32>)
        ensures
            lists(codes@, self@.table.dom()),
    {
        broadcast use group_hash_axioms;

        let mut codes: Vec<i32> = Vec::new();
        let keys = self.results.keys();
        let ghost all = keys.remaining().unref();
        for code in it: keys
            invariant
                it.seq().unref() == all,
                all.no_duplicates(),
                ascending(codes@),
                forall|other: i32|
                    codes@.contains(other) <==> all.take(it.index()).contains(other),
        {
            let ghost seen = all.take(it.index());
            assert(all.take(it.index() + 1) =~= seen.push(*code));
            insert_ascending(&mut codes, *code);
            assert forall|other: i32|
                codes@.contains(other) <==> seen.push(*code).contains(other) by {
                if other == *code {
                    assert(seen.push(*code)[seen.len() as int] == other);
                }
                if seen.contains(other) {
                    assert(seen.push(*code)[seen.index_of(other)] == other);
                }
                if seen.push(*code).contains(other) && other != *code {
                    assert(seen[seen.push(*code).index_of(other)] == other);
                }
            }
        }
        assert(all.take(all.len() as int) =~= all);
        codes
    }

    /// Writes the report of a session that has bailed or is complete, and
    /// returns it: an entry for each exit code seen, in ascending order of
    /// the exit codes.
    pub fn report(&mut self) -> (text: String)
        requires
            old(self)@.wf(),
            old(self)@.phase == Phase::Bailed || old(self)@.phase == Phase::Completed,
        ensures
            final(self)@ == old(self)@.reported(),
            final(self)@.wf(),
            text@ == old(self)@.report_text(),
    {
        broadcast use group_hash_axioms;

        let codes = self.codes();
        proof {
            listing_is_ascending_codes(codes@, self@.table.dom());
        }
        let with_output = self.config.output;
        let mut text = String::new();
        if !with_output {
            text.append("Exit Code\tRuns\tResult\n");
        }
        let ghost heading = text@;
        let mut i: usize = 0;
        while i < codes.len()
            invariant
                i <= codes@.len(),
                lists(codes@, self@.table.dom()),
                text@ == heading + entries(self@.table, codes@.take(i as int), with_output),
            decreases codes@.len() - i,
        {
            assert(codes@.contains(codes@[i as int]));
            assert(codes@.take(i + 1).drop_last() =~= codes@.take(i as int));
            let outcome = self.results.get(&codes[i]).unwrap();
            text.append(outcome.entry(with_output).as_str());
            i += 1;
        }
        assert(codes@.take(codes@.len() as int) =~= codes@);
        self.phase = Phase::Reported;
        text
    }

    /// Ends a session whose report has been written, and returns what it
    /// writes last: a line that names the number of runs executed and the
    /// command.
    pub fn finish(&mut self) -> (banner: String)
        requires
            old(self)@.wf(),
            old(self)@.phase == Phase::Reported,
        ensures
            final(self)@ == old(self)@.finished(),
            final(self)@.wf(),
            banner@ == old(self)@.completion_banner(),
    {
        let mut banner = String::from_str("Completed ");
        push_decimal(&mut banner, self.executed as u64);
        banner.append(" runs of \"");
        banner.append(self.cmd.to_text().as_str());
        banner.append("\"\n");
        self.phase = Phase::Done;
        banner
    }

    /// The stage that the session is in.
    pub fn phase(&self) -> (phase: Phase)
        ensures
            phase == self@.phase,
    {
        self.phase
    }

    /// How many runs have been executed and counted.
    pub fn executed(&self) -> (executed: usize)
        ensures
            executed == self@.executed,
    {
        self.executed
    }

    /// The command of the session.
    pub fn cmd(&self) -> (cmd: &Cmd)
        ensures
            cmd@ == self@.cmd,
    {
        &self.cmd
    }

    /// The settings of the session.
    pub fn config(&self) -> (config: Config)
        ensures
            config == self@.config,
    {
        self.config
    }

    /// What is known of the runs that ended with `exit_code`, if there was
    /// any.
    pub fn outcome(&self, exit_code: i32) -> (outcome: Option<&Outcome>)
        ensures
            match outcome {
                Some(found) => self@.table.contains_key(exit_code) && found@
                    == self@.table[exit_code],
                None => !self@.table.contains_key(exit_code),
            },
    {
        broadcast use group_hash_axioms;

        self.results.get(&exit_code)
    }

    /// Counts one run that ended with `exit_code` and wrote `stdout`.
    fn tally(&mut self, exit_code: i32, stdout: Vec<u8>)
        requires
            old(self)@.wf(),
            old(self)@.phase == Phase::Running,
        ensures
            final(self)@ == old(self)@.recorded(Run { code: exit_code, stdout: stdout@ }),
            final(self)@.wf(),
    {
        broadcast use group_hash_axioms;

        let ghost run = Run { code: exit_code, stdout: stdout@ };
        proof {
            recording_keeps_valid(self@, run);
            if self@.table.contains_key(exit_code) {
                total_splits(self@.table, exit_code);
            }
        }
        let outcome = self.results.entry(exit_code).or_insert(
            Outcome { exit_code, runs: 0, stdout: None },
        );
        outcome.runs += 1;
        if self.config.output && outcome.stdout.is_none() {
            outcome.stdout = Some(decode_output(stdout));
        }
        self.executed += 1;
        if self.config.bail && exit_code != SUCCESS {
            self.phase = Phase::Bailed;
        } else if self.executed >= self.config.runs {
            self.phase = Phase::Completed;
        }
        assert(final(self)@.table =~= old(self)@.recorded(run).table);
    }
}

} // verus!
