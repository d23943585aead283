//! Campaign goal and fail-condition state machine.
//!
//! Each goal is tracked independently in a parallel status vector; a goal
//! moves through Pending and InProgress to Done, or to Failed on a missed
//! deadline, and never leaves Done or Failed.  The aggregate outcome is
//! recomputed each tick from the statuses and the fail conditions, except
//! that a Failed outcome is latched: once the campaign has failed it never
//! reverts, even if the breached condition later recovers.

use crate::date::{spec_date_le, spec_date_lt, Date};
use crate::domain::TechNodeId;
use vstd::prelude::*;

verus! {

/// A scripted campaign goal.
#[derive(Clone, Debug)]
pub enum GoalKind {
    /// Reach a market share (basis points) before the deadline.
    ReachShare { segment: String, min_share_bp: i64, deadline: Date },
    /// Release a product on the named tech node before the deadline.
    LaunchNode { node: String, deadline: Date },
    /// Reach a cumulative profit (cents) before the deadline.
    ProfitTarget { profit_cents: i64, deadline: Date },
    /// Survive a scripted event window that closes by the deadline.
    SurviveEvent { event_id: String, deadline: Date },
}

/// A scripted fail condition.
#[derive(Clone, Debug)]
pub enum FailCondKind {
    /// Fails the campaign as soon as cash drops below the threshold.
    CashBelow { threshold_cents: i64 },
    /// Fails the campaign when share is still below the floor after the
    /// deadline.
    ShareBelow { segment: String, min_share_bp: i64, deadline: Date },
}

/// A campaign scenario: a window, goals and fail conditions.
#[derive(Clone, Debug)]
pub struct CampaignScenarioRes {
    pub start: Date,
    pub end: Date,
    pub difficulty: Option<String>,
    pub goals: Vec<GoalKind>,
    pub fails: Vec<FailCondKind>,
}

/// Status of one goal.
#[derive(Clone, Copy, Debug, PartialEq, Eq, Structural)]
pub enum GoalStatus {
    Pending,
    InProgress,
    Done,
    Failed,
}

/// Aggregate campaign outcome.
#[derive(Clone, Copy, Debug, PartialEq, Eq, Structural)]
pub enum CampaignOutcome {
    InProgress,
    Success,
    Failed,
}

impl Default for CampaignOutcome {
    fn default() -> (r: CampaignOutcome)
        ensures
            r == CampaignOutcome::InProgress,
    {
        CampaignOutcome::InProgress
    }
}

/// Current campaign tracking state.
#[derive(Clone, Debug)]
pub struct CampaignStateRes {
    pub goal_status: Vec<GoalStatus>,
    pub outcome: CampaignOutcome,
}

impl CampaignStateRes {
    pub fn new() -> (r: CampaignStateRes)
        ensures
            r.goal_status@.len() == 0,
            r.outcome == CampaignOutcome::InProgress,
    {
        CampaignStateRes { goal_status: Vec::new(), outcome: CampaignOutcome::InProgress }
    }
}

/// Plain inputs the state machine reads from the freshly updated world.
pub struct CampaignInputs<'a> {
    /// Current date, already advanced or not as the scheduler decides.
    pub date: Date,
    /// Market share in basis points.
    pub share_bp: i64,
    /// Cumulative profit in cents.
    pub profit_cents: i64,
    /// Player cash in cents.
    pub cash_cents: i64,
    /// Tech nodes of all released products.
    pub released_nodes: &'a Vec<TechNodeId>,
    /// Identifiers of the scripted events active this month.
    pub active_event_ids: &'a Vec<String>,
}

/// Fresh evaluation of one goal against the current state, disregarding
/// history.
pub open spec fn spec_eval_goal(
    goal: GoalKind,
    date: Date,
    share_bp: int,
    profit_cents: int,
    released: Seq<TechNodeId>,
    active_ids: Seq<String>,
) -> GoalStatus {
    match goal {
        GoalKind::ReachShare { segment: _, min_share_bp, deadline } => {
            if share_bp >= min_share_bp {
                GoalStatus::Done
            } else if spec_date_lt(deadline, date) {
                GoalStatus::Failed
            } else {
                GoalStatus::InProgress
            }
        },
        GoalKind::LaunchNode { node, deadline } => {
            if exists|j: int| 0 <= j < released.len() && (#[trigger] released[j]).0@ == node@ {
                GoalStatus::Done
            } else if spec_date_lt(deadline, date) {
                GoalStatus::Failed
            } else {
                GoalStatus::InProgress
            }
        },
        GoalKind::ProfitTarget { profit_cents: target, deadline } => {
            if profit_cents >= target {
                GoalStatus::Done
            } else if spec_date_lt(deadline, date) {
                GoalStatus::Failed
            } else {
                GoalStatus::InProgress
            }
        },
        GoalKind::SurviveEvent { event_id, deadline } => {
            if spec_date_lt(deadline, date) {
                GoalStatus::Done
            } else if exists|j: int| 0 <= j < active_ids.len() && (#[trigger] active_ids[j])@
                == event_id@ {
                GoalStatus::InProgress
            } else {
                GoalStatus::Pending
            }
        },
    }
}

/// One step of a goal's state machine: Done and Failed are absorbing;
/// otherwise the goal is re-evaluated against the current state.
pub open spec fn spec_goal_step(
    prev: GoalStatus,
    goal: GoalKind,
    date: Date,
    share_bp: int,
    profit_cents: int,
    released: Seq<TechNodeId>,
    active_ids: Seq<String>,
) -> GoalStatus {
    match prev {
        GoalStatus::Done => GoalStatus::Done,
        GoalStatus::Failed => GoalStatus::Failed,
        _ => spec_eval_goal(goal, date, share_bp, profit_cents, released, active_ids),
    }
}

/// A fail condition is breached by the current state.
pub open spec fn spec_fail_breached(f: FailCondKind, date: Date, share_bp: int, cash_cents: int) -> bool {
    match f {
        FailCondKind::CashBelow { threshold_cents } => cash_cents < threshold_cents,
        FailCondKind::ShareBelow { segment: _, min_share_bp, deadline } => spec_date_lt(
            deadline,
            date,
        ) && share_bp < min_share_bp,
    }
}

pub open spec fn spec_any_failed(statuses: Seq<GoalStatus>) -> bool {
    exists|j: int| 0 <= j < statuses.len() && #[trigger] statuses[j] == GoalStatus::Failed
}

pub open spec fn spec_all_done(statuses: Seq<GoalStatus>) -> bool {
    forall|j: int| 0 <= j < statuses.len() ==> #[trigger] statuses[j] == GoalStatus::Done
}

pub open spec fn spec_any_breached(
    fails: Seq<FailCondKind>,
    date: Date,
    share_bp: int,
    cash_cents: int,
) -> bool {
    exists|j: int|
        0 <= j < fails.len() && spec_fail_breached(#[trigger] fails[j], date, share_bp, cash_cents)
}

/// The aggregate outcome after a step: a previous Failed outcome is
/// latched; otherwise Failed on any failed goal or breached fail
/// condition, Success when every goal is Done, else InProgress.
pub open spec fn spec_outcome_step(
    prev: CampaignOutcome,
    statuses: Seq<GoalStatus>,
    fails: Seq<FailCondKind>,
    date: Date,
    share_bp: int,
    cash_cents: int,
) -> CampaignOutcome {
    if prev == CampaignOutcome::Failed {
        CampaignOutcome::Failed
    } else if spec_any_failed(statuses) || spec_any_breached(fails, date, share_bp, cash_cents) {
        CampaignOutcome::Failed
    } else if spec_all_done(statuses) {
        CampaignOutcome::Success
    } else {
        CampaignOutcome::InProgress
    }
}

/// Campaign failure is latched.
///
/// Once the outcome is Failed, no later state - higher cash, better share,
/// finished goals - ever moves it back to InProgress or Success.
pub proof fn lemma_outcome_failed_is_latched(
    statuses: Seq<GoalStatus>,
    fails: Seq<FailCondKind>,
    date: Date,
    share_bp: int,
    cash_cents: int,
)
    ensures
        spec_outcome_step(CampaignOutcome::Failed, statuses, fails, date, share_bp, cash_cents)
            == CampaignOutcome::Failed,
{
}

/// Goal progress is monotone.
///
/// A goal that is Done stays Done and a goal that is Failed stays Failed,
/// whatever the state machine later observes.
pub proof fn lemma_goal_status_is_latched(
    goal: GoalKind,
    date: Date,
    share_bp: int,
    profit_cents: int,
    released: Seq<TechNodeId>,
    active_ids: Seq<String>,
)
    ensures
        spec_goal_step(
            GoalStatus::Done,
            goal,
            date,
            share_bp,
            profit_cents,
            released,
            active_ids,
        ) == GoalStatus::Done,
        spec_goal_step(
            GoalStatus::Failed,
            goal,
            date,
            share_bp,
            profit_cents,
            released,
            active_ids,
        ) == GoalStatus::Failed,
{
}

/// Evaluate every goal and the fail conditions against the current state:
/// missing statuses start Pending, Done and Failed are absorbing, and the
/// outcome is recomputed with the Failed latch.
pub fn campaign_step(
    scenario: &CampaignScenarioRes,
    state: &mut CampaignStateRes,
    inputs: &CampaignInputs<'_>,
) -> (r: ())
    ensures
        final(state).goal_status@.len() == scenario.goals@.len(),
        forall|j: int|
            0 <= j < scenario.goals@.len() ==> #[trigger] final(state).goal_status@[j]
                == spec_goal_step(
                if j < old(state).goal_status@.len() {
                    old(state).goal_status@[j]
                } else {
                    GoalStatus::Pending
                },
                scenario.goals@[j],
                inputs.date,
                inputs.share_bp as int,
                inputs.profit_cents as int,
                inputs.released_nodes@,
                inputs.active_event_ids@,
            ),
        final(state).outcome == spec_outcome_step(
            old(state).outcome,
            final(state).goal_status@,
            scenario.fails@,
            inputs.date,
            inputs.share_bp as int,
            inputs.cash_cents as int,
        ),
{
    let mut new_status: Vec<GoalStatus> = Vec::new();
    let mut i: usize = 0;
    while i < scenario.goals.len()
        invariant
            i <= scenario.goals@.len(),
            new_status@.len() == i,
            forall|j: int|
                0 <= j < i ==> #[trigger] new_status@[j] == spec_goal_step(
                    if j < old(state).goal_status@.len() {
                        old(state).goal_status@[j]
                    } else {
                        GoalStatus::Pending
                    },
                    scenario.goals@[j],
                    inputs.date,
                    inputs.share_bp as int,
                    inputs.profit_cents as int,
                    inputs.released_nodes@,
                    inputs.active_event_ids@,
                ),
            state.goal_status@ == old(state).goal_status@,
            state.outcome == old(state).outcome,
        decreases scenario.goals@.len() - i,
    {
        let prev: GoalStatus = if i < state.goal_status.len() {
            state.goal_status[i]
        } else {
            GoalStatus::Pending
        };
        let next: GoalStatus = if matches!(prev, GoalStatus::Done) {
            GoalStatus::Done
        } else if matches!(prev, GoalStatus::Failed) {
            GoalStatus::Failed
        } else {
            eval_goal(&scenario.goals[i], inputs)
        };
        new_status.push(next);
        i += 1;
    }
    // Fail conditions against the fresh state.
    let mut breached = false;
    let mut i: usize = 0;
    while i < scenario.fails.len()
        invariant
            i <= scenario.fails@.len(),
            breached == exists|j: int|
                0 <= j < i && spec_fail_breached(
                    #[trigger] scenario.fails@[j],
                    inputs.date,
                    inputs.share_bp as int,
                    inputs.cash_cents as int,
                ),
        decreases scenario.fails@.len() - i,
    {
        let hit = match &scenario.fails[i] {
            FailCondKind::CashBelow { threshold_cents } => inputs.cash_cents < *threshold_cents,
            FailCondKind::ShareBelow { segment: _, min_share_bp, deadline } => deadline.lt(
                &inputs.date,
            ) && inputs.share_bp < *min_share_bp,
        };
        if hit {
            breached = true;
            proof {
                assert(spec_fail_breached(
                    scenario.fails@[i as int],
                    inputs.date,
                    inputs.share_bp as int,
                    inputs.cash_cents as int,
                ));
            }
        }
        i += 1;
    }
    // Any failed goal?
    let mut any_failed = false;
    let mut i: usize = 0;
    while i < new_status.len()
        invariant
            i <= new_status@.len(),
            any_failed == exists|j: int|
                0 <= j < i && #[trigger] new_status@[j] == GoalStatus::Failed,
        decreases new_status@.len() - i,
    {
        if matches!(new_status[i], GoalStatus::Failed) {
            any_failed = true;
        }
        i += 1;
    }
    // All goals done?
    let mut all_done = true;
    let mut i: usize = 0;
    while i < new_status.len()
        invariant
            i <= new_status@.len(),
            all_done == forall|j: int|
                0 <= j < i ==> #[trigger] new_status@[j] == GoalStatus::Done,
        decreases new_status@.len() - i,
    {
        if !matches!(new_status[i], GoalStatus::Done) {
            all_done = false;
        }
        i += 1;
    }
    let outcome = if matches!(state.outcome, CampaignOutcome::Failed) {
        CampaignOutcome::Failed
    } else if any_failed || breached {
        CampaignOutcome::Failed
    } else if all_done {
        CampaignOutcome::Success
    } else {
        CampaignOutcome::InProgress
    };
    state.goal_status = new_status;
    state.outcome = outcome;
}

/// Evaluate one goal freshly against the inputs.
fn eval_goal(goal: &GoalKind, inputs: &CampaignInputs<'_>) -> (r: GoalStatus)
    ensures
        r == spec_eval_goal(
            *goal,
            inputs.date,
            inputs.share_bp as int,
            inputs.profit_cents as int,
            inputs.released_nodes@,
            inputs.active_event_ids@,
        ),
{
    match goal {
        GoalKind::ReachShare { segment: _, min_share_bp, deadline } => {
            if inputs.share_bp >= *min_share_bp {
                GoalStatus::Done
            } else if deadline.lt(&inputs.date) {
                GoalStatus::Failed
            } else {
                GoalStatus::InProgress
            }
        },
        GoalKind::LaunchNode { node, deadline } => {
            let mut found = false;
            let mut j: usize = 0;
            while j < inputs.released_nodes.len()
                invariant
                    j <= inputs.released_nodes@.len(),
                    found == exists|l: int|
                        0 <= l < j && (#[trigger] inputs.released_nodes@[l]).0@ == node@,
                decreases inputs.released_nodes@.len() - j,
            {
                if inputs.released_nodes[j].0 == *node {
                    found = true;
                    proof {
                        assert(inputs.released_nodes@[j as int].0@ == node@);
                    }
                }
                j += 1;
            }
            if found {
                GoalStatus::Done
            } else if deadline.lt(&inputs.date) {
                GoalStatus::Failed
            } else {
                GoalStatus::InProgress
            }
        },
        GoalKind::ProfitTarget { profit_cents: target, deadline } => {
            if inputs.profit_cents >= *target {
                GoalStatus::Done
            } else if deadline.lt(&inputs.date) {
                GoalStatus::Failed
            } else {
                GoalStatus::InProgress
            }
        },
        GoalKind::SurviveEvent { event_id, deadline } => {
            if deadline.lt(&inputs.date) {
                GoalStatus::Done
            } else {
                let mut active = false;
                let mut j: usize = 0;
                while j < inputs.active_event_ids.len()
                    invariant
                        j <= inputs.active_event_ids@.len(),
                        active == exists|l: int|
                            0 <= l < j && (#[trigger] inputs.active_event_ids@[l])@
                                == event_id@,
                    decreases inputs.active_event_ids@.len() - j,
                {
                    if inputs.active_event_ids[j] == *event_id {
                        active = true;
                        proof {
                            assert(inputs.active_event_ids@[j as int]@ == event_id@);
                        }
                    }
                    j += 1;
                }
                if active {
                    GoalStatus::InProgress
                } else {
                    GoalStatus::Pending
                }
            }
        },
    }
}

} // verus!
