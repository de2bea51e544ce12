//! What holds of every session, proved over the model.

use crate::session::{
    ascending, ascending_codes, counted, entries, lists, occurrences, tallied, total, Phase, Run,
    Session, Tally,
};
use crate::stress::{CmdView, Config, SUCCESS};
use crate::text::text_of;
use vstd::prelude::*;

verus! {

/// The total of a table is the count of any one of its exit codes, added to
/// the total of the rest.
pub proof fn total_splits(table: Map<i32, Tally>, code: i32)
    requires
        table.dom().finite(),
        table.contains_key(code),
    ensures
        total(table) == table[code].runs + total(table.remove(code)),
    decreases table.dom().len(),
{
    let picked = table.dom().choose();
    if picked != code {
        let rest = table.remove(picked);
        total_splits(rest, code);
        total_splits(table.remove(code), picked);
        assert(rest.remove(code) =~= table.remove(code).remove(picked));
    }
}

/// Counting one run raises the total of a table by one.
pub proof fn total_counts_each_run(table: Map<i32, Tally>, capture: bool, run: Run)
    requires
        table.dom().finite(),
    ensures
        total(tallied(table, capture, run)) == total(table) + 1,
{
    let after = tallied(table, capture, run);
    total_splits(after, run.code);
    if table.contains_key(run.code) {
        total_splits(table, run.code);
        assert(after.remove(run.code) =~= table.remove(run.code));
    } else {
        assert(after.remove(run.code) =~= table);
    }
}

/// A session that counts a run while it is running stays a valid session.
pub proof fn recording_keeps_valid(session: Session, run: Run)
    requires
        session.wf(),
        session.phase == Phase::Running,
    ensures
        session.recorded(run).wf(),
{
    total_counts_each_run(session.table, session.config.output, run);
}

/// A set of exit codes has one ascending listing only: two listings of the
/// same set are the same sequence.
pub proof fn listing_is_unique(first: Seq<i32>, second: Seq<i32>, keys: Set<i32>)
    requires
        lists(first, keys),
        lists(second, keys),
    ensures
        first == second,
    decreases first.len(),
{
    if first.len() == 0 {
        if second.len() > 0 {
            assert(second.contains(second[0]));
        }
    } else {
        let top = first.last();
        assert(first.contains(top));
        assert(second.contains(top));
        let at = second.index_of(top);
        if at + 1 < second.len() {
            assert(second.contains(second[at + 1]));
            assert(first.contains(second[at + 1]));
        }
        assert(at == second.len() - 1);
        let rest = keys.remove(top);
        assert forall|code: i32| rest.contains(code) <==> first.drop_last().contains(code) by {
            if first.drop_last().contains(code) {
                let i = first.drop_last().index_of(code);
                assert(first[i] == code);
                assert(first.contains(code));
            }
            if rest.contains(code) {
                let i = first.index_of(code);
                assert(first.drop_last()[i] == code);
            }
        }
        assert forall|code: i32| rest.contains(code) <==> second.drop_last().contains(code) by {
            if second.drop_last().contains(code) {
                let i = second.drop_last().index_of(code);
                assert(second[i] == code);
                assert(second.contains(code));
            }
            if rest.contains(code) {
                let i = second.index_of(code);
                assert(second.drop_last()[i] == code);
            }
        }
        listing_is_unique(first.drop_last(), second.drop_last(), rest);
        assert(second =~= second.drop_last().push(top));
    }
}

/// The ascending listing of a set of exit codes is the one that
/// `ascending_codes` names.
pub proof fn listing_is_ascending_codes(codes: Seq<i32>, keys: Set<i32>)
    requires
        lists(codes, keys),
    ensures
        codes == ascending_codes(keys),
{
    listing_is_unique(codes, ascending_codes(keys), keys);
}

/// The exit codes in `keys` that are less than `bound`, in ascending order.
spec fn codes_below(keys: Set<i32>, bound: int) -> Seq<i32>
    decreases bound - i32::MIN,
{
    if bound <= i32::MIN {
        Seq::empty()
    } else if keys.contains((bound - 1) as i32) {
        codes_below(keys, bound - 1).push((bound - 1) as i32)
    } else {
        codes_below(keys, bound - 1)
    }
}

proof fn codes_below_lists(keys: Set<i32>, bound: int)
    requires
        i32::MIN <= bound <= i32::MAX + 1,
    ensures
        ascending(codes_below(keys, bound)),
        forall|code: i32|
            #![trigger codes_below(keys, bound).contains(code)]
            #![trigger keys.contains(code)]
            codes_below(keys, bound).contains(code) <==> keys.contains(code) && code < bound,
    decreases bound - i32::MIN,
{
    let codes = codes_below(keys, bound);
    if bound > i32::MIN {
        let less = codes_below(keys, bound - 1);
        codes_below_lists(keys, bound - 1);
        let top = (bound - 1) as i32;
        assert forall|i: int, j: int| 0 <= i < j < codes.len() implies codes[i] < codes[j] by {
            assert(less.contains(less[i]));
        }
        assert forall|code: i32| codes.contains(code) <==> keys.contains(code) && code
            < bound by {
            if codes.contains(code) {
                let i = codes.index_of(code);
                if i < less.len() {
                    assert(less.contains(less[i]));
                }
            }
            if keys.contains(code) && code < bound {
                if code == top {
                    assert(codes[codes.len() - 1] == code);
                } else {
                    assert(less.contains(code));
                    assert(codes[less.index_of(code)] == code);
                }
            }
        }
    }
}

/// Every set of exit codes has an ascending listing, and `ascending_codes`
/// names it: the listing holds each exit code of the set once, and no other,
/// and a lower exit code always stands before a higher one.
pub proof fn ascending_codes_lists(keys: Set<i32>)
    ensures
        lists(ascending_codes(keys), keys),
{
    codes_below_lists(keys, i32::MAX + 1);
    assert(lists(codes_below(keys, i32::MAX + 1), keys));
}

/// The tallies of exit codes that are not `code` count the same runs with
/// the tally of `code` taken out of the table.
proof fn counted_without(table: Map<i32, Tally>, codes: Seq<i32>, code: i32)
    requires
        !codes.contains(code),
    ensures
        counted(table.remove(code), codes) == counted(table, codes),
    decreases codes.len(),
{
    if codes.len() > 0 {
        assert(codes.contains(codes.last()));
        assert forall|other: i32| codes.drop_last().contains(other) implies codes.contains(
            other,
        ) by {
            assert(codes[codes.drop_last().index_of(other)] == other);
        }
        counted_without(table, codes.drop_last(), code);
    }
}

/// The entries of a listing of a table count as many runs as the table
/// holds.
pub proof fn listing_counts_total(table: Map<i32, Tally>, codes: Seq<i32>)
    requires
        table.dom().finite(),
        lists(codes, table.dom()),
    ensures
        counted(table, codes) == total(table),
    decreases codes.len(),
{
    if codes.len() == 0 {
        if table.dom().len() > 0 {
            assert(codes.contains(table.dom().choose()));
        }
    } else {
        let top = codes.last();
        let rest = codes.drop_last();
        assert(codes.contains(top));
        total_splits(table, top);
        assert forall|code: i32| table.remove(top).dom().contains(code) <==> rest.contains(
            code,
        ) by {
            if rest.contains(code) {
                assert(codes[rest.index_of(code)] == code);
            }
            if table.remove(top).dom().contains(code) {
                assert(rest[codes.index_of(code)] == code);
            }
        }
        listing_counts_total(table.remove(top), rest);
        counted_without(table, rest, top);
    }
}

/// In every valid session the runs that the entries of the report count add
/// up to the number of runs executed, which is never more than the number
/// asked for.
pub proof fn report_counts_runs_executed(session: Session)
    requires
        session.wf(),
    ensures
        session.reported_runs() == session.executed,
        session.executed <= session.config.runs,
{
    ascending_codes_lists(session.table.dom());
    listing_counts_total(session.table, ascending_codes(session.table.dom()));
}

/// Each step takes a session to a stage that its stage leads to, and a
/// session that is over takes no step: a session is used once.
pub proof fn steps_follow_the_stages(session: Session, run: Run)
    requires
        session.wf(),
    ensures
        session.phase == Phase::Idle ==> session.phase.leads_to(session.started().phase),
        session.phase == Phase::Running ==> session.phase.leads_to(session.recorded(run).phase)
            && session.phase.leads_to(session.aborted().phase),
        session.phase == Phase::Bailed || session.phase == Phase::Completed
            ==> session.phase.leads_to(session.reported().phase),
        session.phase == Phase::Reported ==> session.phase.leads_to(session.finished().phase),
        forall|next: Phase| !Phase::Done.leads_to(next),
{
}

/// A session that replays runs stays a valid session, keeps its command and
/// its settings, and counts no run twice: it has executed at most as many
/// more as were offered.
pub proof fn replaying_keeps_valid(session: Session, runs: Seq<Run>)
    requires
        session.wf(),
    ensures
        session.replayed(runs).wf(),
        session.replayed(runs).cmd == session.cmd,
        session.replayed(runs).config == session.config,
        session.executed <= session.replayed(runs).executed <= session.executed + runs.len(),
    decreases runs.len(),
{
    if runs.len() > 0 && session.phase == Phase::Running {
        recording_keeps_valid(session, runs.first());
        replaying_keeps_valid(session.recorded(runs.first()), runs.drop_first());
    }
}

/// A running session that does not bail executes every run that is asked
/// for, where enough are offered, and is complete after the last.
proof fn replaying_completes(session: Session, runs: Seq<Run>)
    requires
        session.wf(),
        session.phase == Phase::Running || session.phase == Phase::Completed,
        !session.config.bail,
        session.executed + runs.len() >= session.config.runs,
    ensures
        session.replayed(runs).phase == Phase::Completed,
        session.replayed(runs).executed == session.config.runs,
    decreases runs.len(),
{
    if session.phase == Phase::Running {
        recording_keeps_valid(session, runs.first());
        replaying_completes(session.recorded(runs.first()), runs.drop_first());
    }
}

/// Where a session does not bail and no attempt fails to give an exit code,
/// it executes exactly as many runs as were asked for, and the runs that
/// the entries of its report count add up to that number.
pub proof fn counts_add_up_to_runs_asked_for(cmd: CmdView, config: Config, runs: Seq<Run>)
    requires
        !config.bail,
        runs.len() >= config.runs,
    ensures
        ({
            let end = Session::fresh(cmd, config).started().replayed(runs);
            &&& end.phase == Phase::Completed
            &&& end.executed == config.runs
            &&& end.reported_runs() == config.runs
        }),
{
    let begun = Session::fresh(cmd, config).started();
    replaying_completes(begun, runs);
    replaying_keeps_valid(begun, runs);
    report_counts_runs_executed(begun.replayed(runs));
}

/// A running session that bails counts the runs up to the first that fails
/// and no run after it.
proof fn replaying_bails(session: Session, runs: Seq<Run>, first: int)
    requires
        session.wf(),
        session.phase == Phase::Running,
        session.config.bail,
        0 <= first < runs.len(),
        session.executed + first < session.config.runs,
        runs[first].code != SUCCESS,
        forall|i: int| 0 <= i < first ==> runs[i].code == SUCCESS,
    ensures
        session.replayed(runs).phase == Phase::Bailed,
        session.replayed(runs).executed == session.executed + first + 1,
        session.replayed(runs) == session.replayed(runs.take(first + 1)),
    decreases runs.len(),
{
    let next = session.recorded(runs.first());
    recording_keeps_valid(session, runs.first());
    assert(runs.take(first + 1).drop_first() =~= runs.drop_first().take(first));
    if first > 0 {
        assert forall|i: int| 0 <= i < first - 1 implies runs.drop_first()[i].code
            == SUCCESS by {
            assert(runs[i + 1].code == SUCCESS);
        }
        replaying_bails(next, runs.drop_first(), first - 1);
    } else {
        assert(next.replayed(runs.drop_first()) == next);
        assert(next.replayed(runs.take(1).drop_first()) == next);
    }
}

/// Where a session bails, the first run that ends with a non-zero exit code
/// is the last that it executes: the session has bailed, the number of runs
/// executed is the place of that run, counted from one, which is no more
/// than the number asked for, and the runs offered after it change nothing.
pub proof fn bail_stops_at_first_failure(
    cmd: CmdView,
    config: Config,
    runs: Seq<Run>,
    first: int,
)
    requires
        config.bail,
        0 <= first < runs.len(),
        first < config.runs,
        runs[first].code != SUCCESS,
        forall|i: int| 0 <= i < first ==> runs[i].code == SUCCESS,
    ensures
        ({
            let end = Session::fresh(cmd, config).started().replayed(runs);
            &&& end.phase == Phase::Bailed
            &&& end.executed == first + 1
            &&& end.executed <= config.runs
            &&& end == Session::fresh(cmd, config).started().replayed(runs.take(first + 1))
        }),
{
    let begun = Session::fresh(cmd, config).started();
    replaying_bails(begun, runs, first);
}

/// Output that a session keeps for an exit code is never replaced: whatever
/// runs come later, the session shows for that exit code what it kept
/// first.
pub proof fn kept_output_stays(session: Session, runs: Seq<Run>, code: i32)
    requires
        session.table.contains_key(code),
        session.table[code].stdout is Some,
    ensures
        session.replayed(runs).table.contains_key(code),
        session.replayed(runs).table[code].stdout == session.table[code].stdout,
    decreases runs.len(),
{
    if runs.len() > 0 && session.phase == Phase::Running {
        kept_output_stays(session.recorded(runs.first()), runs.drop_first(), code);
    }
}

/// A session that keeps output and executes the first run with some exit
/// code keeps the output of that run for the exit code.
proof fn replaying_keeps_first_output(session: Session, runs: Seq<Run>, at: int)
    requires
        session.config.output,
        0 <= at < runs.len(),
        at < session.replayed(runs).executed - session.executed,
        !session.table.contains_key(runs[at].code),
        forall|i: int| 0 <= i < at ==> runs[i].code != runs[at].code,
    ensures
        session.replayed(runs).table.contains_key(runs[at].code),
        session.replayed(runs).table[runs[at].code].stdout == Some(text_of(runs[at].stdout)),
    decreases runs.len(),
{
    if session.phase == Phase::Running {
        let next = session.recorded(runs.first());
        if at == 0 {
            kept_output_stays(next, runs.drop_first(), runs[at].code);
        } else {
            let rest = runs.drop_first();
            let code = runs[at].code;
            assert(rest[at - 1].code == code);
            assert forall|i: int| 0 <= i < at - 1 implies #[trigger] rest[i].code != code by {
                assert(runs[i + 1].code != code);
            }
            replaying_keeps_first_output(next, runs.drop_first(), at - 1);
        }
    }
}

/// Where a session keeps output, what it shows for an exit code is the
/// standard output of the first run that ended with that exit code, and of
/// no later one: for each run that the session executed and that no run
/// with the same exit code came before.
pub proof fn output_is_of_first_run(cmd: CmdView, config: Config, runs: Seq<Run>, at: int)
    requires
        config.output,
        0 <= at < runs.len(),
        at < Session::fresh(cmd, config).started().replayed(runs).executed,
        forall|i: int| 0 <= i < at ==> runs[i].code != runs[at].code,
    ensures
        ({
            let end = Session::fresh(cmd, config).started().replayed(runs);
            &&& end.table.contains_key(runs[at].code)
            &&& end.table[runs[at].code].stdout == Some(text_of(runs[at].stdout))
        }),
{
    replaying_keeps_first_output(Session::fresh(cmd, config).started(), runs, at);
}

/// Where a session keeps no output, no tally holds any, and its report is
/// the summary: the heading of the table, and a row for each exit code.
pub proof fn no_output_without_capture(session: Session)
    requires
        session.wf(),
        !session.config.output,
    ensures
        forall|code: i32| #[trigger]
            session.table.contains_key(code) ==> session.table[code].stdout is None,
        session.report_text() == "Exit Code\tRuns\tResult\n"@ + entries(
            session.table,
            ascending_codes(session.table.dom()),
            false,
        ),
{
}

/// For each exit code a session counts the runs that it executed and that
/// ended with that code, and it holds a tally for the exit codes of those
/// runs only. The runs that it executed are the first of those offered.
pub proof fn tallies_count_occurrences(session: Session, runs: Seq<Run>, code: i32)
    requires
        session.wf(),
    ensures
        ({
            let end = session.replayed(runs);
            let done = runs.take(end.executed - session.executed);
            &&& session.executed <= end.executed <= session.executed + runs.len()
            &&& end.runs_of(code) == session.runs_of(code) + occurrences(done, code)
            &&& end.table.contains_key(code) <==> session.table.contains_key(code)
                || occurrences(done, code) > 0
        }),
    decreases runs.len(),
{
    let end = session.replayed(runs);
    replaying_keeps_valid(session, runs);
    if runs.len() > 0 && session.phase == Phase::Running {
        let next = session.recorded(runs.first());
        let rest = runs.drop_first();
        recording_keeps_valid(session, runs.first());
        replaying_keeps_valid(next, rest);
        tallies_count_occurrences(next, rest, code);
        let done = runs.take(end.executed - session.executed);
        assert(done.drop_first() =~= rest.take(end.executed - next.executed));
    }
}

/// A session that does not bail executes every run offered, as long as no
/// more are offered than were asked for.
proof fn replaying_counts_all(session: Session, runs: Seq<Run>)
    requires
        session.wf(),
        session.phase == Phase::Running || session.phase == Phase::Completed,
        !session.config.bail,
        session.executed + runs.len() <= session.config.runs,
    ensures
        session.replayed(runs).executed == session.executed + runs.len(),
    decreases runs.len(),
{
    if runs.len() > 0 {
        recording_keeps_valid(session, runs.first());
        replaying_counts_all(session.recorded(runs.first()), runs.drop_first());
    }
}

/// The report does not depend on the order in which the runs ended as they
/// did. Two sessions with the same command and settings that do not bail,
/// and that execute as many runs with each exit code as the other, hold
/// tallies for the same exit codes, with the same counts, and list them in
/// the same order; where they keep no output they write the same report.
pub proof fn report_ignores_order(cmd: CmdView, config: Config, one: Seq<Run>, other: Seq<Run>)
    requires
        !config.bail,
        one.len() <= config.runs,
        other.len() <= config.runs,
        forall|code: i32| occurrences(one, code) == occurrences(other, code),
    ensures
        ({
            let first = Session::fresh(cmd, config).started().replayed(one);
            let second = Session::fresh(cmd, config).started().replayed(other);
            &&& first.table.dom() == second.table.dom()
            &&& ascending_codes(first.table.dom()) == ascending_codes(second.table.dom())
            &&& forall|code: i32| first.runs_of(code) == second.runs_of(code)
            &&& !config.output ==> first.table == second.table && first.report_text()
                == second.report_text()
        }),
{
    let begun = Session::fresh(cmd, config).started();
    let first = begun.replayed(one);
    let second = begun.replayed(other);
    replaying_keeps_valid(begun, one);
    replaying_keeps_valid(begun, other);
    replaying_counts_all(begun, one);
    replaying_counts_all(begun, other);
    assert(one.take(one.len() as int) =~= one);
    assert(other.take(other.len() as int) =~= other);
    assert forall|code: i32| first.runs_of(code) == second.runs_of(code) by {
        tallies_count_occurrences(begun, one, code);
        tallies_count_occurrences(begun, other, code);
    }
    assert forall|code: i32| #[trigger]
        first.table.dom().contains(code) == second.table.dom().contains(code) by {
        tallies_count_occurrences(begun, one, code);
        tallies_count_occurrences(begun, other, code);
    }
    assert(first.table.dom() =~= second.table.dom());
    if !config.output {
        assert forall|code: i32| first.table.dom().contains(code) implies first.table[code]
            == second.table[code] by {
            assert(first.runs_of(code) == second.runs_of(code));
        }
        assert(first.table =~= second.table);
    }
}

} // verus!
