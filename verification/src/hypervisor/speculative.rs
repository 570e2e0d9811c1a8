//! Racing several recovery branches.

use crate::error;
use crate::error::NexusError;
use crate::hypervisor::recovery::RecoveryAction;
use crate::hypervisor::tool::{ToolDefinition, ToolOutput};
use crate::text;
use vstd::prelude::*;
use vstd::string::*;

verus! {

/// How the winner is chosen.
#[derive(Debug, Clone, Copy, PartialEq, Eq, Structural)]
pub enum SelectionStrategy {
    /// The first success wins at once; the others are cancelled.
    FirstSuccess,
    /// All branches are awaited; then the first success wins.
    WaitAll,
}

impl Default for SelectionStrategy {
    fn default() -> (r: Self)
        ensures
            r == SelectionStrategy::FirstSuccess,
    {
        SelectionStrategy::FirstSuccess
    }
}

/// How a race is run.
#[derive(Debug, Clone, Copy, PartialEq, Eq, Structural)]
pub struct SpeculativeConfig {
    /// How many branches are raced, at most.
    pub max_branches: usize,
    /// How long a branch may take.
    pub branch_timeout_ms: u64,
    pub selection_strategy: SelectionStrategy,
}

impl Default for SpeculativeConfig {
    fn default() -> (r: Self)
        ensures
            r.max_branches == 4,
            r.branch_timeout_ms == 5000,
            r.selection_strategy == SelectionStrategy::FirstSuccess,
    {
        SpeculativeConfig {
            max_branches: 4,
            branch_timeout_ms: 5000,
            selection_strategy: SelectionStrategy::FirstSuccess,
        }
    }
}

/// One branch of a race.
#[derive(Debug, Clone, PartialEq, Eq)]
pub struct SpeculativeBranch {
    pub id: String,
    pub base_snapshot_id: String,
    pub tool: ToolDefinition,
    pub strategy: RecoveryAction,
}

impl SpeculativeBranch {
    /// A branch with this identifier.
    pub fn new(
        id: String,
        base_snapshot_id: String,
        tool: ToolDefinition,
        strategy: RecoveryAction,
    ) -> (r: Self)
        ensures
            r == (SpeculativeBranch { id, base_snapshot_id, tool, strategy }),
    {
        SpeculativeBranch { id, base_snapshot_id, tool, strategy }
    }
}

/// How a branch ended.
#[derive(Debug, Clone, PartialEq, Eq)]
pub struct BranchOutcome {
    pub branch_id: String,
    pub succeeded: bool,
    pub output: Option<ToolOutput>,
    pub error: Option<String>,
    pub elapsed_ms: u64,
    pub timed_out: bool,
}

/// How a race ended.
#[derive(Debug, Clone, PartialEq, Eq)]
pub struct SpeculativeResult {
    pub winner: BranchOutcome,
    /// How many branches were raced.
    pub branches_tried: usize,
    /// How many of them succeeded, as far as they were awaited.
    pub branches_succeeded: usize,
}

/// What the runner reports of a branch.
pub enum BranchReport {
    /// It returned within its time.
    Returned(ToolOutput),
    /// It failed within its time; this is the error's text.
    Failed(String),
    /// It ran out of time; this is the limit's text.
    TimedOut(String),
}

/// Whether `o` is the outcome of a branch with this report.
pub open spec fn is_outcome(
    o: BranchOutcome,
    id: Seq<char>,
    elapsed_ms: u64,
    report: BranchReport,
) -> bool {
    &&& o.branch_id@ == id
    &&& o.elapsed_ms == elapsed_ms
    &&& match report {
        BranchReport::Returned(out) => {
            &&& o.succeeded == out.success
            &&& o.output == Some(out)
            &&& text::opt_text(o.error) == (if out.success {
                None
            } else {
                text::opt_text(out.error)
            })
            &&& !o.timed_out
        },
        BranchReport::Failed(e) => {
            &&& !o.succeeded
            &&& o.output is None
            &&& text::opt_text(o.error) == Some(e@)
            &&& !o.timed_out
        },
        BranchReport::TimedOut(limit) => {
            &&& !o.succeeded
            &&& o.output is None
            &&& text::opt_text(o.error) == Some("branch timed out after "@ + limit@)
            &&& o.timed_out
        },
    }
}

/// The outcome of a branch.
pub fn branch_outcome(branch_id: String, elapsed_ms: u64, report: BranchReport) -> (r:
    BranchOutcome)
    ensures
        is_outcome(r, branch_id@, elapsed_ms, report),
{
    match report {
        BranchReport::Returned(output) => {
            let succeeded = output.success;
            let error = if succeeded {
                None
            } else {
                text::clone_opt(&output.error)
            };
            BranchOutcome {
                branch_id,
                succeeded,
                output: Some(output),
                error,
                elapsed_ms,
                timed_out: false,
            }
        },
        BranchReport::Failed(e) => BranchOutcome {
            branch_id,
            succeeded: false,
            output: None,
            error: Some(e),
            elapsed_ms,
            timed_out: false,
        },
        BranchReport::TimedOut(limit) => BranchOutcome {
            branch_id,
            succeeded: false,
            output: None,
            error: Some(text::cat2("branch timed out after ", limit.as_str())),
            elapsed_ms,
            timed_out: true,
        },
    }
}

/// The position of the first success, in the order of completion.
pub open spec fn first_success(s: Seq<BranchOutcome>) -> Option<int>
    decreases s.len(),
{
    if s.len() == 0 {
        None
    } else {
        match first_success(s.drop_last()) {
            Some(i) => Some(i),
            None => if s.last().succeeded {
                Some(s.len() - 1)
            } else {
                None
            },
        }
    }
}

/// How many branches succeeded.
pub open spec fn successes(s: Seq<BranchOutcome>) -> nat
    decreases s.len(),
{
    if s.len() == 0 {
        0
    } else {
        successes(s.drop_last()) + if s.last().succeeded {
            1nat
        } else {
            0nat
        }
    }
}

/// `first_success` is where the first success stands, and `None` exactly if
/// there is none.
pub proof fn lemma_first_success(s: Seq<BranchOutcome>)
    ensures
        match first_success(s) {
            Some(i) => 0 <= i < s.len() && s[i].succeeded && (forall|j: int|
                0 <= j < i ==> !(#[trigger] s[j]).succeeded),
            None => forall|j: int| 0 <= j < s.len() ==> !(#[trigger] s[j]).succeeded,
        },
        successes(s) <= s.len(),
        first_success(s) is Some <==> successes(s) > 0,
    decreases s.len(),
{
    if s.len() > 0 {
        let t = s.drop_last();
        lemma_first_success(t);
        assert forall|j: int| 0 <= j < t.len() implies t[j] == s[j] by {}
        match first_success(t) {
            Some(i) => {
                assert(t[i] == s[i]);
                assert forall|j: int| 0 <= j < i implies !(#[trigger] s[j]).succeeded by {
                    assert(t[j] == s[j]);
                }
            },
            None => {
                assert forall|j: int| 0 <= j < t.len() implies !(#[trigger] s[j]).succeeded by {
                    assert(t[j] == s[j]);
                }
            },
        }
    }
}

/// Why a branch did not win.
pub open spec fn reason(o: BranchOutcome) -> Seq<char> {
    if o.timed_out {
        o.branch_id@ + " (timed out)"@
    } else {
        o.branch_id@ + ": "@ + (match o.error {
            Some(e) => e@,
            None => "unknown"@,
        })
    }
}

pub open spec fn reasons(s: Seq<BranchOutcome>) -> Seq<Seq<char>> {
    Seq::new(s.len(), |i: int| reason(s[i]))
}

/// What is told when no branch succeeded.
pub open spec fn no_success(tried: nat, s: Seq<BranchOutcome>) -> Seq<char> {
    "all "@ + text::decimal(tried)
        + " speculative branches failed or timed out without a success ["@ + text::joined(
        reasons(s),
        "; "@,
    ) + "]"@
}

/// How many branches are raced: at least one, and no more than configured.
pub open spec fn raced(branches: nat, max_branches: nat) -> nat {
    let cap = if max_branches == 0 {
        1
    } else {
        max_branches
    };
    if branches < cap {
        branches
    } else {
        cap
    }
}

/// A race that is on: how many branches run, how many have succeeded, and how
/// the completed ones ended, in the order of completion.
#[derive(Debug, PartialEq, Eq)]
pub struct Race {
    pub strategy: SelectionStrategy,
    pub tried: usize,
    pub succeeded: usize,
    pub completed: Vec<BranchOutcome>,
}

/// What a race does next.
pub enum RaceStep {
    /// Await the other branches.
    On(Race),
    /// Cancel them: this is the result.
    Won(SpeculativeResult),
}

/// Whether `step` is what follows the completion of a branch.
pub open spec fn goes_on(
    race: Race,
    id: Seq<char>,
    elapsed_ms: u64,
    report: BranchReport,
    step: RaceStep,
) -> bool {
    match step {
        RaceStep::Won(result) => {
            &&& race.strategy == SelectionStrategy::FirstSuccess
            &&& is_outcome(result.winner, id, elapsed_ms, report)
            &&& result.winner.succeeded
            &&& result.branches_tried == race.tried
            &&& result.branches_succeeded == 1
        },
        RaceStep::On(next) => {
            &&& next.valid()
            &&& next.strategy == race.strategy
            &&& next.tried == race.tried
            &&& next.completed@.len() == race.completed@.len() + 1
            &&& next.completed@.drop_last() == race.completed@
            &&& is_outcome(next.completed@.last(), id, elapsed_ms, report)
            &&& race.strategy == SelectionStrategy::FirstSuccess
                ==> !next.completed@.last().succeeded
        },
    }
}

/// Whether `r` is how a race ends in which all branches have completed.
pub open spec fn closes(race: Race, r: Result<SpeculativeResult, NexusError>) -> bool {
    match (first_success(race.completed@), r) {
        (Some(i), Ok(result)) => {
            &&& result.winner == race.completed@[i]
            &&& result.branches_tried == race.tried
            &&& result.branches_succeeded == race.succeeded
        },
        (None, Err(e)) => e@ == error::Fault::WasmError(
            no_success(race.tried as nat, race.completed@),
        ),
        _ => false,
    }
}

impl Race {
    /// The count of successes is right, and under `FirstSuccess` there is none
    /// yet.
    pub open spec fn valid(self) -> bool {
        &&& self.completed@.len() <= self.tried
        &&& self.succeeded == successes(self.completed@)
        &&& self.strategy == SelectionStrategy::FirstSuccess ==> self.succeeded == 0
    }

    /// Starts a race of the first branches, as many as are allowed. There must
    /// be at least one.
    pub fn start(branches: usize, config: &SpeculativeConfig) -> (r: Result<Race, NexusError>)
        ensures
            is_started(branches as nat, *config, r),
    {
        if branches == 0 {
            return Err(
                NexusError::ConfigError(
                    "speculative execution requires at least one branch".to_string(),
                ),
            );
        }
        let cap: usize = if config.max_branches == 0 {
            1
        } else {
            config.max_branches
        };
        let tried: usize = if branches < cap {
            branches
        } else {
            cap
        };
        Ok(
            Race {
                strategy: config.selection_strategy,
                tried,
                succeeded: 0,
                completed: Vec::new(),
            },
        )
    }

    /// Takes in the next branch that completes.
    pub fn finished(self, branch_id: String, elapsed_ms: u64, report: BranchReport) -> (r: RaceStep)
        requires
            self.valid(),
            self.completed@.len() < self.tried,
        ensures
            goes_on(self, branch_id@, elapsed_ms, report, r),
    {
        proof {
            lemma_first_success(self.completed@);
        }
        let ghost before = self.completed@;
        let Race { strategy, tried, succeeded, completed } = self;
        let outcome = branch_outcome(branch_id, elapsed_ms, report);
        let count: usize = if outcome.succeeded {
            succeeded + 1
        } else {
            succeeded
        };
        if matches!(strategy, SelectionStrategy::FirstSuccess) && outcome.succeeded {
            return RaceStep::Won(
                SpeculativeResult {
                    winner: outcome,
                    branches_tried: tried,
                    branches_succeeded: count,
                },
            );
        }
        let mut list = completed;
        list.push(outcome);
        proof {
            assert(list@.drop_last() =~= before);
        }
        RaceStep::On(Race { strategy, tried, succeeded: count, completed: list })
    }

    /// Ends a race in which all branches have completed: the first success
    /// wins; without one, all the reasons are told.
    pub fn close(self) -> (r: Result<SpeculativeResult, NexusError>)
        requires
            self.valid(),
        ensures
            closes(self, r),
    {
        let Race { strategy: _, tried, succeeded, completed } = self;
        let ghost all = completed@;
        let mut i: usize = 0;
        let mut texts: Vec<String> = Vec::new();
        while i < completed.len()
            invariant
                i <= completed.len(),
                all == completed@,
                all == self.completed@,
                tried == self.tried,
                succeeded == self.succeeded,
                first_success(all.take(i as int)) is None,
                texts@.len() == i,
                forall|j: int| 0 <= j < i ==> (#[trigger] texts@[j])@ == reason(all[j]),
                forall|j: int| 0 <= j < i ==> !(#[trigger] all[j]).succeeded,
            decreases completed.len() - i,
        {
            proof {
                assert(all.take(i + 1).drop_last() =~= all.take(i as int));
                assert(all.take(i + 1).last() == all[i as int]);
            }
            if completed[i].succeeded {
                proof {
                    lemma_first_success(all);
                    assert(all[i as int].succeeded);
                    let k = first_success(all)->0;
                    assert(k == i);
                }
                let mut list = completed;
                let winner = list.remove(i);
                return Ok(
                    SpeculativeResult {
                        winner,
                        branches_tried: tried,
                        branches_succeeded: succeeded,
                    },
                );
            }
            let o = &completed[i];
            let t = if o.timed_out {
                text::cat2(o.branch_id.as_str(), " (timed out)")
            } else {
                match &o.error {
                    Some(e) => text::cat3(o.branch_id.as_str(), ": ", e.as_str()),
                    None => text::cat3(o.branch_id.as_str(), ": ", "unknown"),
                }
            };
            texts.push(t);
            i = i + 1;
        }
        proof {
            assert(all.take(i as int) =~= all);
            assert(text::texts(texts@) =~= reasons(all));
        }
        let detail = text::join(&texts, "; ");
        Err(
            NexusError::WasmError(
                text::cat5(
                    "all ",
                    text::to_decimal(tried as u64).as_str(),
                    " speculative branches failed or timed out without a success [",
                    detail.as_str(),
                    "]",
                ),
            ),
        )
    }
}

/// Runs a whole race over the reports of its branches, in the order of their
/// completion.
pub fn decide_race(
    branches: usize,
    config: &SpeculativeConfig,
    reports: Vec<(String, u64, BranchReport)>,
) -> (r: Result<SpeculativeResult, NexusError>)
    requires
        reports@.len() == raced(branches as nat, config.max_branches as nat),
    ensures
        branches == 0 ==> r is Err && r->Err_0@ == error::Fault::ConfigError(
            "speculative execution requires at least one branch"@,
        ),
        branches > 0 ==> exists|all: Seq<BranchOutcome>|
            #[trigger] awaited(all, reports@, config.selection_strategy) && race_result_is(
                r,
                config.selection_strategy,
                reports@.len(),
                all,
            ),
{
    let mut race = match Race::start(branches, config) {
        Ok(race) => race,
        Err(e) => {
            return Err(e);
        },
    };
    let ghost total = reports@;
    let mut queue = reports;
    let ghost mut done: int = 0;
    while queue.len() > 0
        invariant
            total == reports@,
            race.valid(),
            race.strategy == config.selection_strategy,
            race.tried == total.len(),
            branches > 0,
            0 <= done <= total.len(),
            queue@ == total.skip(done),
            race.completed@.len() == done,
            are_outcomes(race.completed@, total.take(done)),
            total.len() == raced(branches as nat, config.max_branches as nat),
        decreases queue.len(),
    {
        let ghost before = race.completed@;
        let (id, elapsed, report) = queue.remove(0);
        let ghost item = (id, elapsed, report);
        proof {
            assert(item == total[done]);
            assert(queue@ =~= total.skip(done + 1));
            assert(total.take(done + 1).drop_last() =~= total.take(done));
            assert(total.take(done + 1).last() == item);
        }
        match race.finished(id, elapsed, report) {
            RaceStep::Won(result) => {
                proof {
                    let all = before.push(result.winner);
                    assert(are_outcomes(all, total.take(done + 1))) by {
                        assert forall|i: int| 0 <= i < all.len() implies is_outcome(
                            #[trigger] all[i],
                            total.take(done + 1)[i].0@,
                            total.take(done + 1)[i].1,
                            total.take(done + 1)[i].2,
                        ) by {
                            if i < done {
                                assert(all[i] == before[i]);
                                assert(total.take(done)[i] == total[i]);
                            }
                        }
                    }
                    lemma_first_success(before);
                    lemma_first_success(all);
                    assert(all.drop_last() =~= before);
                    assert(awaited(all, total, config.selection_strategy));
                }
                return Ok(result);
            },
            RaceStep::On(next) => {
                race = next;
            },
        }
        proof {
            assert forall|i: int| 0 <= i < done + 1 implies is_outcome(
                #[trigger] race.completed@[i],
                total.take(done + 1)[i].0@,
                total.take(done + 1)[i].1,
                total.take(done + 1)[i].2,
            ) by {
                if i < done {
                    assert(race.completed@.drop_last()[i] == before[i]);
                    assert(total.take(done)[i] == total[i]);
                }
            }
            done = done + 1;
        }
    }
    proof {
        assert(total.take(done) =~= total);
        assert(awaited(race.completed@, total, config.selection_strategy));
        lemma_first_success(race.completed@);
    }
    race.close()
}

/// Whether `all` are the outcomes of the reports that a race awaits: all of
/// them, or, if the first success wins at once, those up to it.
pub open spec fn awaited(
    all: Seq<BranchOutcome>,
    reports: Seq<(String, u64, BranchReport)>,
    strategy: SelectionStrategy,
) -> bool {
    &&& all.len() <= reports.len()
    &&& are_outcomes(all, reports.take(all.len() as int))
    &&& all.len() == reports.len() || (strategy == SelectionStrategy::FirstSuccess
        && first_success(all) == Some(all.len() - 1))
}

/// Whether `all` are the outcomes of these reports.
pub open spec fn are_outcomes(
    all: Seq<BranchOutcome>,
    reports: Seq<(String, u64, BranchReport)>,
) -> bool {
    &&& all.len() == reports.len()
    &&& forall|i: int|
        0 <= i < all.len() ==> is_outcome(
            #[trigger] all[i],
            reports[i].0@,
            reports[i].1,
            reports[i].2,
        )
}

/// The result of a race whose awaited branches ended in these outcomes: the first
/// success wins under either strategy; only the count of successes differs.
pub open spec fn race_result_is(
    r: Result<SpeculativeResult, NexusError>,
    strategy: SelectionStrategy,
    tried: nat,
    all: Seq<BranchOutcome>,
) -> bool {
    match (first_success(all), r) {
        (Some(i), Ok(result)) => {
            &&& result.winner == all[i]
            &&& result.branches_tried == tried
            &&& result.branches_succeeded == (if strategy == SelectionStrategy::FirstSuccess {
                1
            } else {
                successes(all)
            })
        },
        (None, Err(e)) => e@ == error::Fault::WasmError(no_success(tried, all)),
        _ => false,
    }
}

/// An outcome tells its branch's report: a branch succeeded exactly if it
/// returned a success, it timed out exactly if it was reported to, and an
/// outcome has an output exactly if the branch returned. Who did not succeed
/// has no success to show, and who failed or timed out says why.
pub proof fn lemma_outcome_tells_the_report(
    o: BranchOutcome,
    id: Seq<char>,
    elapsed_ms: u64,
    report: BranchReport,
)
    requires
        is_outcome(o, id, elapsed_ms, report),
    ensures
        o.branch_id@ == id && o.elapsed_ms == elapsed_ms,
        o.succeeded <==> (match report {
            BranchReport::Returned(out) => out.success,
            _ => false,
        }),
        o.timed_out <==> report is TimedOut,
        o.output is Some <==> report is Returned,
        report matches BranchReport::Returned(out) ==> o.output == Some(out),
        o.succeeded ==> !o.timed_out && o.error is None,
        report matches BranchReport::Failed(e) ==> o.error is Some && o.error->0@ == e@,
        report matches BranchReport::TimedOut(limit) ==> o.error is Some && text::ends(
            o.error->0@,
            limit@,
        ),
{
    if let BranchReport::TimedOut(limit) = report {
        let lead = "branch timed out after "@;
        assert((lead + limit@).subrange(lead.len() as int, (lead + limit@).len() as int)
            =~= limit@);
    }
}

/// The reason of a branch names the branch, and tells its error unless it timed
/// out.
pub proof fn lemma_reasons_name_the_branch(o: BranchOutcome)
    ensures
        text::starts(reason(o), o.branch_id@),
        !o.timed_out && o.error is Some ==> text::ends(reason(o), o.error->0@),
        o.timed_out ==> text::ends(reason(o), "(timed out)"@),
{
    let id = o.branch_id@;
    assert(reason(o).subrange(0, id.len() as int) =~= id);
    if o.timed_out {
        reveal_strlit(" (timed out)");
        reveal_strlit("(timed out)");
        let r = reason(o);
        assert(r.subrange(r.len() - "(timed out)"@.len(), r.len() as int) =~= "(timed out)"@);
    } else if o.error is Some {
        let e = o.error->0@;
        let r = reason(o);
        assert(r.subrange(r.len() - e.len(), r.len() as int) =~= e);
    }
}

/// As many branches are raced as there are, up to the limit, and never none
/// where there is one.
pub proof fn lemma_raced_is_bounded(branches: nat, max_branches: nat)
    ensures
        raced(branches, max_branches) <= branches,
        max_branches > 0 ==> raced(branches, max_branches) <= max_branches,
        branches > 0 ==> raced(branches, max_branches) > 0,
        max_branches > 0 ==> raced(branches, max_branches) == branches || raced(
            branches,
            max_branches,
        ) == max_branches,
        max_branches == 0 && branches > 0 ==> raced(branches, max_branches) == 1,
{
}

/// Who wins a race: a branch that returned a success, before which none did. A
/// race is lost only if no branch that was awaited returned a success. Under
/// the first strategy nothing is awaited behind the winner.
pub proof fn lemma_winner_came_first(
    r: Result<SpeculativeResult, NexusError>,
    strategy: SelectionStrategy,
    reports: Seq<(String, u64, BranchReport)>,
    all: Seq<BranchOutcome>,
)
    requires
        awaited(all, reports, strategy),
        race_result_is(r, strategy, reports.len(), all),
    ensures
        r matches Ok(won) ==> exists|i: int|
            0 <= i < all.len() && won.winner.branch_id@ == (#[trigger] reports[i]).0@ && (
            reports[i].2 matches BranchReport::Returned(out) && out.success && won.winner.output
                == Some(out)) && (forall|j: int|
                0 <= j < i ==> !((#[trigger] reports[j]).2 matches BranchReport::Returned(out)
                    && out.success)),
        r matches Ok(won) ==> won.branches_tried == reports.len(),
        r is Err ==> forall|j: int|
            0 <= j < reports.len() ==> !((#[trigger] reports[j]).2 matches BranchReport::Returned(
                out,
            ) && out.success),
{
    lemma_first_success(all);
    assert forall|j: int| 0 <= j < all.len() implies (#[trigger] all[j]).succeeded == (
    reports[j].2 matches BranchReport::Returned(out) && out.success) by {
        assert(reports.take(all.len() as int)[j] == reports[j]);
        assert(is_outcome(all[j], reports[j].0@, reports[j].1, reports[j].2));
    }
    match first_success(all) {
        Some(i) => {
            assert(all[i].succeeded);
            assert(reports.take(all.len() as int)[i] == reports[i]);
            assert(is_outcome(all[i], reports[i].0@, reports[i].1, reports[i].2));
            assert forall|j: int| 0 <= j < i implies !((
            #[trigger] reports[j]).2 matches BranchReport::Returned(out) && out.success) by {
                assert(!all[j].succeeded);
            }
        },
        None => {
            if r is Err {
                assert(all.len() == reports.len());
                assert forall|j: int| 0 <= j < reports.len() implies !((
                #[trigger] reports[j]).2 matches BranchReport::Returned(out) && out.success) by {
                    assert(!all[j].succeeded);
                }
            }
        },
    }
}

/// Under the first strategy the first branch that returns a success wins at
/// once; under the other one nobody wins before all have completed. A branch that
/// failed or timed out never wins.
pub proof fn lemma_first_success_wins_at_once(
    race: Race,
    id: Seq<char>,
    elapsed_ms: u64,
    report: BranchReport,
    step: RaceStep,
)
    requires
        goes_on(race, id, elapsed_ms, report, step),
    ensures
        step is Won <==> race.strategy == SelectionStrategy::FirstSuccess && (
        report matches BranchReport::Returned(out) && out.success),
        step matches RaceStep::Won(r) ==> r.winner.branch_id@ == id && r.winner.elapsed_ms
            == elapsed_ms && !r.winner.timed_out && r.branches_tried == race.tried,
        step matches RaceStep::On(next) ==> next.completed@.len() == race.completed@.len() + 1
            && next.completed@.last().branch_id@ == id && next.tried == race.tried,
{
    if step is On {
        lemma_outcome_tells_the_report(step->On_0.completed@.last(), id, elapsed_ms, report);
    } else {
        lemma_outcome_tells_the_report(step->Won_0.winner, id, elapsed_ms, report);
    }
}

/// When all have completed, the first that succeeded wins, and how many did is
/// told; the race is lost exactly if none did, and then every branch is named.
pub proof fn lemma_closed_races_have_the_first_winner(
    race: Race,
    r: Result<SpeculativeResult, NexusError>,
    i: int,
)
    requires
        race.valid(),
        closes(race, r),
        0 <= i < race.completed@.len(),
    ensures
        race.completed@[i].succeeded ==> r is Ok,
        r matches Ok(won) ==> won.winner.succeeded && race.completed@.contains(won.winner)
            && won.branches_tried == race.tried && won.branches_succeeded == race.succeeded,
        r matches Ok(won) ==> (race.completed@[i].succeeded && (forall|j: int|
            0 <= j < i ==> !(#[trigger] race.completed@[j]).succeeded) ==> won.winner
            == race.completed@[i]),
        r matches Err(e) ==> (e@ matches error::Fault::WasmError(t) && text::has_text(
            t,
            reason(race.completed@[i]),
        )),
{
    lemma_first_success(race.completed@);
    if r is Err {
        let all = reasons(race.completed@);
        text::lemma_joined_holds(all, "; "@, i);
        assert(all[i] == reason(race.completed@[i]));
        let lead = "all "@ + text::decimal(race.tried as nat)
            + " speculative branches failed or timed out without a success ["@;
        text::lemma_held_in_longer(lead, text::joined(all, "; "@), "]"@, all[i]);
    }
}

/// Whether `r` is the race at its start.
pub open spec fn is_started(
    branches: nat,
    config: SpeculativeConfig,
    r: Result<Race, NexusError>,
) -> bool {
    match r {
        Ok(race) => branches > 0 && race.valid() && race.completed@.len() == 0 && race.strategy
            == config.selection_strategy && race.tried == raced(
            branches,
            config.max_branches as nat,
        ) && race.tried > 0,
        Err(e) => branches == 0 && e@ == error::Fault::ConfigError(
            "speculative execution requires at least one branch"@,
        ),
    }
}

/// A race is run where there is a branch: with no more branches than there are,
/// no more than are allowed, and at least one. Nothing is finished at its start.
pub proof fn lemma_races_start_with_a_branch(
    branches: nat,
    config: SpeculativeConfig,
    r: Result<Race, NexusError>,
)
    requires
        is_started(branches, config, r),
    ensures
        r is Ok <==> branches > 0,
        r matches Ok(race) ==> 0 < race.tried <= branches && (config.max_branches > 0
            ==> race.tried <= config.max_branches) && (branches <= config.max_branches
            ==> race.tried == branches) && race.completed@.len() == 0 && race.succeeded == 0
            && race.strategy == config.selection_strategy,
        r matches Err(e) ==> e@ is ConfigError,
{
    if let Ok(race) = r {
        assert(race.completed@.len() == 0);
        assert(successes(race.completed@) == 0);
    }
}

/// A race that was won tells how many branches had succeeded: one where the first
/// success ends it, and otherwise all that did, at least the winner among them.
/// A race without a success tells how many branches were tried.
pub proof fn lemma_race_results_count_successes(
    r: Result<SpeculativeResult, NexusError>,
    strategy: SelectionStrategy,
    tried: nat,
    all: Seq<BranchOutcome>,
)
    requires
        race_result_is(r, strategy, tried, all),
    ensures
        r is Ok <==> first_success(all) is Some,
        r matches Ok(won) ==> won.branches_tried == tried && won.winner.succeeded && (strategy
            == SelectionStrategy::FirstSuccess ==> won.branches_succeeded == 1) && (strategy
            != SelectionStrategy::FirstSuccess ==> won.branches_succeeded == successes(all)),
        r matches Err(e) ==> e@ is WasmError,
{
    lemma_first_success(all);
}

} // verus!
