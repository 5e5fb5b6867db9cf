//! The query-execution state machine.
//!
//! One submitted statement is driven through the lifecycle
//! `Queued → Running → {Succeeded, Failed, Cancelled}` by polling a remote
//! status endpoint. This module holds every decision of that loop: accepting
//! the submission response, classifying each poll response, counting waits,
//! and fixing the terminal outcome. The remote calls themselves (submit,
//! status query, result fetch, the waits between polls) are performed by the
//! caller, which feeds the responses in as plain values.

use vstd::prelude::*;
use vstd::string::StringExecFns;
use crate::statements::{spec_statements, split_statements};
use crate::directive::{spec_database_directive, opt_str_view, get_database_from_sql};

verus! {

/// The lifecycle state of a query execution, as the remote service reports
/// it.
#[derive(Clone, Copy, PartialEq, Eq, Structural, Debug)]
pub enum QueryState {
    Queued,
    Running,
    Succeeded,
    Failed,
    Cancelled,
}

/// A state from which no further transition happens.
pub open spec fn spec_is_terminal(s: QueryState) -> bool {
    s == QueryState::Succeeded || s == QueryState::Failed || s == QueryState::Cancelled
}

impl QueryState {
    /// Whether polling stops at this state.
    pub fn is_terminal(&self) -> (r: bool)
        ensures
            r == spec_is_terminal(*self),
    {
        match self {
            QueryState::Succeeded | QueryState::Failed | QueryState::Cancelled => true,
            QueryState::Queued | QueryState::Running => false,
        }
    }
}

/// The fixed number of time units waited between two polls.
pub const POLL_INTERVAL_SECONDS: u64 = 5;

/// A fault in the remote conversation: a response field that the protocol
/// requires was absent.
#[derive(Clone, Copy, PartialEq, Eq, Structural, Debug)]
pub enum ResponseFault {
    /// A submission response carried no execution id.
    MissingExecutionId,
    /// A status response carried no lifecycle state.
    MissingState,
    /// A successful execution reported no total execution time.
    MissingStatistics,
}

/// The terminal outcome of one statement.
#[derive(Clone, Copy, PartialEq, Eq, Structural, Debug)]
pub enum Outcome {
    /// The statement succeeded after the reported total execution time.
    Succeeded { millis: i64 },
    /// The statement ended in `Failed` or `Cancelled`.
    Failed { state: QueryState },
}

/// What the caller must do next after a poll.
#[derive(Clone, Copy, PartialEq, Eq, Structural, Debug)]
pub enum Action {
    /// Wait [`POLL_INTERVAL_SECONDS`] and query the status again.
    Wait,
    /// The execution is terminal: attempt the best-effort result fetch and
    /// report the handle's outcome.
    Fetch,
}

/// The state carried across the lifecycle of one submitted statement.
#[derive(Debug)]
pub struct ExecutionHandle {
    /// The execution id assigned by the remote service on submission.
    pub id: String,
    /// The last reported lifecycle state.
    pub state: QueryState,
    /// How many times a non-terminal state was observed (each one is
    /// followed by a wait and another status query).
    pub waits: u64,
    /// The terminal outcome, once reached.
    pub outcome: Option<Outcome>,
}

/// Accepts a submission response. The execution id is required; a response
/// without one is a fault and no handle is produced.
pub fn accept_submission(id: Option<String>) -> (r: Result<ExecutionHandle, ResponseFault>)
    ensures
        id is None ==> r == Err::<ExecutionHandle, ResponseFault>(
            ResponseFault::MissingExecutionId,
        ),
        id matches Some(s) ==> (r matches Ok(h) && h.id == s && h.state == QueryState::Queued
            && h.waits == 0 && h.outcome is None),
{
    match id {
        None => Err(ResponseFault::MissingExecutionId),
        Some(s) => Ok(
            ExecutionHandle { id: s, state: QueryState::Queued, waits: 0, outcome: None },
        ),
    }
}

/// Feeds one status response into the handle and decides what to do next.
///
/// A non-terminal state (`Queued` or `Running`) counts one wait and asks the
/// caller to poll again; `Succeeded` fixes a successful outcome carrying the
/// reported duration; `Failed` and `Cancelled` fix a failed outcome. In
/// every terminal case the caller is asked to attempt the result fetch. A
/// response without a state, or a success without statistics, is a fault
/// and leaves the handle unchanged.
pub fn on_poll(h: &mut ExecutionHandle, state: Option<QueryState>, total_millis: Option<i64>) -> (r:
    Result<Action, ResponseFault>)
    requires
        old(h).outcome is None,
        state matches Some(st) ==> (spec_is_terminal(st) || old(h).waits < u64::MAX),
    ensures
        final(h).id == old(h).id,
        state is None ==> r == Err::<Action, ResponseFault>(ResponseFault::MissingState) && *final(h) == *old(h),
        state matches Some(st) ==> (if !spec_is_terminal(st) {
            r == Ok::<Action, ResponseFault>(Action::Wait) && final(h).state == st && final(h).waits
                == old(h).waits + 1 && final(h).outcome is None
        } else if st == QueryState::Succeeded {
            match total_millis {
                None => r == Err::<Action, ResponseFault>(ResponseFault::MissingStatistics)
                    && *final(h) == *old(h),
                Some(ms) => r == Ok::<Action, ResponseFault>(Action::Fetch) && final(h).state == st
                    && final(h).waits == old(h).waits && final(h).outcome == Some(
                    Outcome::Succeeded { millis: ms },
                ),
            }
        } else {
            r == Ok::<Action, ResponseFault>(Action::Fetch) && final(h).state == st
                && final(h).waits == old(h).waits && final(h).outcome == Some(
                Outcome::Failed { state: st },
            )
        }),
{
    let st = match state {
        None => {
            return Err(ResponseFault::MissingState);
        },
        Some(st) => st,
    };
    match st {
        QueryState::Queued | QueryState::Running => {
            h.state = st;
            h.waits = h.waits + 1;
            Ok(Action::Wait)
        },
        QueryState::Succeeded => {
            match total_millis {
                None => Err(ResponseFault::MissingStatistics),
                Some(ms) => {
                    h.state = st;
                    h.outcome = Some(Outcome::Succeeded { millis: ms });
                    Ok(Action::Fetch)
                },
            }
        },
        QueryState::Failed | QueryState::Cancelled => {
            h.state = st;
            h.outcome = Some(Outcome::Failed { state: st });
            Ok(Action::Fetch)
        },
    }
}

/// One status response, as plain values: the reported state, if any, and
/// the reported total execution time, if any.
#[derive(Clone, Copy, PartialEq, Eq, Structural, Debug)]
pub struct PollReport {
    pub state: Option<QueryState>,
    pub total_millis: Option<i64>,
}

/// What replaying a sequence of status responses yields: either a fault, or
/// the terminal outcome together with the number of waits taken to reach it.
#[derive(Clone, Copy, PartialEq, Eq, Structural, Debug)]
pub enum DriveResult {
    /// A response was faulty; polling aborts.
    Fault { fault: ResponseFault },
    /// A terminal state was reached after `waits` wait-and-poll rounds.
    Done { waits: u64, outcome: Outcome },
    /// The responses ran out before a terminal state was reached; the real
    /// loop would still be polling.
    StillPolling { waits: u64 },
}

/// The replay of [`on_poll`] over a sequence of reports, counting `waits`
/// non-terminal responses before the first terminal one.
pub open spec fn spec_drive(reports: Seq<PollReport>, waits: u64) -> DriveResult
    decreases reports.len(),
{
    if reports.len() == 0 {
        DriveResult::StillPolling { waits }
    } else {
        match reports[0].state {
            None => DriveResult::Fault { fault: ResponseFault::MissingState },
            Some(st) => {
                if !spec_is_terminal(st) {
                    if waits == u64::MAX {
                        DriveResult::StillPolling { waits }
                    } else {
                        spec_drive(reports.drop_first(), (waits + 1) as u64)
                    }
                } else if st == QueryState::Succeeded {
                    match reports[0].total_millis {
                        None => DriveResult::Fault { fault: ResponseFault::MissingStatistics },
                        Some(ms) => DriveResult::Done {
                            waits,
                            outcome: Outcome::Succeeded { millis: ms },
                        },
                    }
                } else {
                    DriveResult::Done { waits, outcome: Outcome::Failed { state: st } }
                }
            },
        }
    }
}

/// The poll loop stops at the first terminal response: when the replay of
/// a report sequence ends with an outcome, the number of waits it took is
/// exactly the number of reports before the first terminal one, every
/// earlier report carried a non-terminal state, and that first terminal
/// report is within the sequence.
pub proof fn lemma_drive_stops_at_first_terminal(reports: Seq<PollReport>, w: u64)
    ensures
        spec_drive(reports, w) matches DriveResult::Done { waits, outcome } ==> ({
            let k = waits - w;
            &&& w <= waits
            &&& 0 <= k < reports.len()
            &&& (reports[k].state matches Some(st) && spec_is_terminal(st))
            &&& forall|i: int|
                0 <= i < k ==> ((#[trigger] reports[i]).state matches Some(st2)
                    && !spec_is_terminal(st2))
        }),
    decreases reports.len(),
{
    if reports.len() > 0 {
        match reports[0].state {
            None => {},
            Some(st) => {
                if !spec_is_terminal(st) && w < u64::MAX {
                    lemma_drive_stops_at_first_terminal(reports.drop_first(), (w + 1) as u64);
                    if spec_drive(reports, w) is Done {
                        assert forall|i: int|
                            0 <= i < spec_drive(reports, w)->Done_waits - w implies ((
                        #[trigger] reports[i]).state matches Some(st2) && !spec_is_terminal(
                            st2,
                        )) by {
                            if i > 0 {
                                assert(reports.drop_first()[i - 1] == reports[i]);
                            }
                        }
                        assert(reports.drop_first()[spec_drive(reports, w)->Done_waits - w - 1]
                            == reports[spec_drive(reports, w)->Done_waits - w]);
                    }
                }
            },
        }
    }
}

/// Replays a recorded sequence of status responses through the polling
/// rules: the result says how many wait-and-poll rounds precede the first
/// terminal response and which outcome that response fixes. Both failed and
/// cancelled executions fix a failed outcome, and every terminal response
/// (successful or not) asks for the result fetch.
pub fn run_polls(h: &mut ExecutionHandle, reports: &Vec<PollReport>) -> (r: DriveResult)
    requires
        old(h).outcome is None,
        old(h).waits == 0,
    ensures
        final(h).id == old(h).id,
        r == spec_drive(reports@, 0),
        r matches DriveResult::Done { waits, outcome } ==> final(h).outcome == Some(outcome)
            && final(h).waits == waits,
{
    let mut i: usize = 0;
    proof {
        assert(reports@.skip(0) =~= reports@);
    }
    while i < reports.len()
        invariant
            0 <= i <= reports@.len(),
            h.id == old(h).id,
            h.outcome is None,
            spec_drive(reports@, 0) == spec_drive(reports@.skip(i as int), h.waits),
        decreases reports@.len() - i,
    {
        let rep = reports[i];
        proof {
            assert(reports@.skip(i as int)[0] == reports@[i as int]);
            assert(reports@.skip(i as int).drop_first() =~= reports@.skip(i as int + 1));
        }
        let needs_room = match rep.state {
            Some(st) => !st.is_terminal(),
            None => false,
        };
        if needs_room && h.waits == u64::MAX {
            return DriveResult::StillPolling { waits: h.waits };
        }
        match on_poll(h, rep.state, rep.total_millis) {
            Err(fault) => {
                return DriveResult::Fault { fault };
            },
            Ok(Action::Wait) => {
                i += 1;
            },
            Ok(Action::Fetch) => {
                let outcome = match h.outcome {
                    Some(o) => o,
                    None => {
                        proof {
                            assert(false);
                        }
                        Outcome::Failed { state: QueryState::Failed }
                    },
                };
                return DriveResult::Done { waits: h.waits, outcome };
            },
        }
    }
    proof {
        assert(reports@.skip(reports@.len() as int).len() == 0);
    }
    DriveResult::StillPolling { waits: h.waits }
}

/// The synthetic always-succeeding statement submitted once before any user
/// statement; a failure of this health check aborts the whole run.
pub fn health_check_statement() -> (r: String)
    ensures
        r@ == "SELECT 1"@,
{
    String::from_str("SELECT 1")
}

/// One statement ready for submission: its text and the namespace override
/// its comments carry, if any.
pub struct StatementPlan {
    pub text: String,
    pub database: Option<String>,
}

/// Splits rendered SQL into statements and attaches to each the `Database:`
/// directive extracted from its own text. A directive never carries over to
/// the following statements.
pub fn plan_statements(sql: &str) -> (r: Vec<StatementPlan>)
    ensures
        r@.len() == spec_statements(sql@).len(),
        forall|i: int|
            0 <= i < r@.len() ==> (#[trigger] r@[i].text@ == spec_statements(sql@)[i]
                && opt_str_view(r@[i].database) == spec_database_directive(
                spec_statements(sql@)[i],
            )),
{
    let stmts = split_statements(sql);
    let mut out: Vec<StatementPlan> = Vec::new();
    let mut i: usize = 0;
    while i < stmts.len()
        invariant
            0 <= i <= stmts@.len(),
            stmts.deep_view() == spec_statements(sql@),
            out@.len() == i,
            forall|k: int|
                0 <= k < i ==> (#[trigger] out@[k].text@ == spec_statements(sql@)[k]
                    && opt_str_view(out@[k].database) == spec_database_directive(
                    spec_statements(sql@)[k],
                )),
        decreases stmts@.len() - i,
    {
        proof {
            assert(stmts.deep_view()[i as int] == stmts@[i as int]@);
        }
        let text = stmts[i].clone();
        let db = get_database_from_sql(text.as_str());
        out.push(StatementPlan { text, database: db });
        i += 1;
    }
    out
}

} // verus!
