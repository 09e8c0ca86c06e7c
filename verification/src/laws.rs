//! What holds of the reconcile machine across whole runs, proved once and
//! for all over its transition relation [`next`]: a fresh project is
//! persisted before anything starts, a vanished container is replaced, the
//! drift decision is exact, a converged project is left untouched, and the
//! start-retry loop issues exactly its budget of attempts.

use vstd::prelude::*;

use crate::reconcile::next;
use crate::reconcile::fail_step;
use crate::reconcile::Action;
use crate::reconcile::Event;
use crate::reconcile::Phase;
use crate::reconcile::ReconcileError;
use crate::reconcile::StepCfg;
use crate::version::PostgresVersion;

verus! {

/// The actions a run requests: starting from `phase`, the events are fed
/// one by one and each step's action is recorded.
pub open spec fn run_actions(cfg: StepCfg, phase: Phase, events: Seq<Event>) -> Seq<Action>
    decreases events.len(),
{
    if events.len() == 0 {
        Seq::empty()
    } else {
        seq![next(cfg, phase, events[0]).1] + run_actions(
            cfg,
            next(cfg, phase, events[0]).0,
            events.drop_first(),
        )
    }
}

/// The phase a run ends in.
pub open spec fn run_phase(cfg: StepCfg, phase: Phase, events: Seq<Event>) -> Phase
    decreases events.len(),
{
    if events.len() == 0 {
        phase
    } else {
        run_phase(cfg, next(cfg, phase, events[0]).0, events.drop_first())
    }
}

/// How many start calls a list of actions requests.
pub open spec fn count_starts(s: Seq<Action>) -> nat
    decreases s.len(),
{
    if s.len() == 0 {
        0
    } else {
        (if s[0] is Start {
            1nat
        } else {
            0nat
        }) + count_starts(s.drop_first())
    }
}

/// How many inter-attempt delays a list of actions requests.
pub open spec fn count_backoffs(s: Seq<Action>) -> nat
    decreases s.len(),
{
    if s.len() == 0 {
        0
    } else {
        (if s[0] is Backoff {
            1nat
        } else {
            0nat
        }) + count_backoffs(s.drop_first())
    }
}

/// A project with no ledger record provisions a fresh container: the pass
/// moves straight to creation, and the very next action after creation is
/// the ledger save — [`crate::reconcile::Reconciler::step`] writes exactly
/// one record there, keyed by the project, carrying the id the creation
/// returned.
pub proof fn lemma_fresh_project_provisions(cfg: StepCfg, id: String, now: u64)
    requires
        !cfg.has_record,
    ensures
        next(cfg, Phase::EnsuringImage, Event::ImageReady) == (Phase::Creating, Action::Create),
        next(cfg, Phase::Creating, (Event::Created { id, now })) == (
            Phase::PersistingLedger,
            Action::SaveLedger,
        ),
{
}

/// A recorded container that no longer exists is discarded and replaced:
/// existence is re-verified first, "gone" is a normal negative rather than
/// an error, and the pass provisions anew.  The ledger record is then
/// overwritten wholesale, so the stale id is neither reused nor left
/// dangling.
pub proof fn lemma_stale_record_replaced(cfg: StepCfg, id: String, now: u64)
    requires
        cfg.has_record,
    ensures
        next(cfg, Phase::EnsuringImage, Event::ImageReady) == (
            Phase::ResolvingExistence,
            Action::CheckExists,
        ),
        next(cfg, Phase::ResolvingExistence, Event::ExistsResult(false)) == (
            Phase::Creating,
            Action::Create,
        ),
        next(cfg, Phase::Creating, (Event::Created { id, now })) == (
            Phase::PersistingLedger,
            Action::SaveLedger,
        ),
{
}

/// The drift decision on the observed version label: an equal version
/// continues the pass; a desired version strictly above the observed one
/// fails as an unsupported upgrade; one strictly below fails as an
/// unsupported downgrade.  Both failures carry both versions.
pub proof fn lemma_version_drift_decision(cfg: StepCfg, actual: PostgresVersion)
    ensures
        actual == cfg.desired ==> next(cfg, Phase::CheckingVersion, Event::VersionLabel(actual))
            == (Phase::CheckingRunning, Action::QueryRunning),
        actual.spec_lt(cfg.desired) ==> next(cfg, Phase::CheckingVersion, Event::VersionLabel(actual))
            == fail_step(
            (ReconcileError::UpgradeUnsupported { actual, desired: cfg.desired }),
        ),
        cfg.desired.spec_lt(actual) ==> next(cfg, Phase::CheckingVersion, Event::VersionLabel(actual))
            == fail_step(
            (ReconcileError::DowngradeUnsupported { actual, desired: cfg.desired }),
        ),
{
}

/// Reconciling an already-converged project is a pure no-op: with a
/// recorded container that exists, carries the desired version and is
/// running, the run only inspects — it requests no creation, no start and
/// no ledger save, so by `step`'s ledger clause the ledger is left
/// untouched.
pub proof fn lemma_converged_reconcile_is_noop(cfg: StepCfg)
    requires
        cfg.has_record,
    ensures
        ({
            let events = seq![
                Event::ImageReady,
                Event::ExistsResult(true),
                Event::VersionLabel(cfg.desired),
                Event::RunningResult(true),
            ];
            run_actions(cfg, Phase::EnsuringImage, events) =~= seq![
                Action::CheckExists,
                Action::ReadVersion,
                Action::QueryRunning,
                Action::Succeed,
            ] && run_phase(cfg, Phase::EnsuringImage, events) == Phase::Done
        }),
{
    reveal_with_fuel(run_actions, 6);
    reveal_with_fuel(run_phase, 6);
    let events = seq![
        Event::ImageReady,
        Event::ExistsResult(true),
        Event::VersionLabel(cfg.desired),
        Event::RunningResult(true),
    ];
    let e1 = events.drop_first();
    let e2 = e1.drop_first();
    let e3 = e2.drop_first();
    let e4 = e3.drop_first();
    assert(e1 =~= seq![
        Event::ExistsResult(true),
        Event::VersionLabel(cfg.desired),
        Event::RunningResult(true),
    ]);
    assert(e2 =~= seq![Event::VersionLabel(cfg.desired), Event::RunningResult(true)]);
    assert(e3 =~= seq![Event::RunningResult(true)]);
    assert(e4.len() == 0);
    assert(next(cfg, Phase::EnsuringImage, Event::ImageReady) == (
        Phase::ResolvingExistence,
        Action::CheckExists,
    ));
    assert(next(cfg, Phase::ResolvingExistence, Event::ExistsResult(true)) == (
        Phase::CheckingVersion,
        Action::ReadVersion,
    ));
    assert(next(cfg, Phase::CheckingVersion, Event::VersionLabel(cfg.desired)) == (
        Phase::CheckingRunning,
        Action::QueryRunning,
    ));
    assert(next(cfg, Phase::CheckingRunning, Event::RunningResult(true)) == (
        Phase::Done,
        Action::Succeed,
    ));
    assert(run_actions(cfg, Phase::EnsuringImage, events) =~= seq![
        Action::CheckExists,
        Action::ReadVersion,
        Action::QueryRunning,
        Action::Succeed,
    ]);
}

/// True of the phases a fresh-project run passes through before its record
/// has been handed to the ledger (a failed pass stays failed).
pub open spec fn pre_persist(phase: Phase) -> bool {
    phase is EnsuringImage || phase is Creating || phase is Failed
}

/// For a project with no ledger record, no start can be requested before
/// the fresh record went to the ledger: in any run that begins before
/// persistence, every start action is preceded by the ledger save.
pub proof fn lemma_no_start_before_persist(cfg: StepCfg, phase: Phase, events: Seq<Event>, i: int)
    requires
        !cfg.has_record,
        pre_persist(phase),
        0 <= i < run_actions(cfg, phase, events).len(),
        run_actions(cfg, phase, events)[i] is Start,
    ensures
        exists|j: int|
            0 <= j < i && (#[trigger] run_actions(cfg, phase, events)[j]) is SaveLedger,
    decreases events.len(),
{
    let acts = run_actions(cfg, phase, events);
    let p2 = next(cfg, phase, events[0]).0;
    let a0 = next(cfg, phase, events[0]).1;
    let rest = run_actions(cfg, p2, events.drop_first());
    assert(acts == seq![a0] + rest);
    assert(!(a0 is Start));
    assert(acts[0] == a0);
    if a0 is SaveLedger {
        assert(acts[0] is SaveLedger);
        assert(0 < i);
    } else {
        assert(pre_persist(p2));
        assert(acts[i] == rest[i - 1]);
        lemma_no_start_before_persist(cfg, p2, events.drop_first(), i - 1);
        let j = choose|j: int| 0 <= j < i - 1 && (#[trigger] rest[j]) is SaveLedger;
        assert(acts[j + 1] == rest[j]);
    }
}

/// The events of `k` failed start attempts: each start fails, then the
/// backoff delay passes.
pub open spec fn failing_attempts(k: nat) -> Seq<Event>
    decreases k,
{
    if k == 0 {
        Seq::empty()
    } else {
        seq![Event::StartFailed, Event::Waited] + failing_attempts((k - 1) as nat)
    }
}

/// From attempt `a`, with at least `k` attempts of budget beyond it, `k`
/// failed attempts followed by one accepted, verified start: the run
/// requests `k` further starts and `k` backoff delays, and converges.
proof fn lemma_start_loop_succeeds(cfg: StepCfg, a: u32, k: nat)
    requires
        1 <= a,
        a + k <= cfg.max_attempts,
    ensures
        ({
            let events = failing_attempts(k) + seq![
                Event::StartOk,
                Event::Waited,
                Event::RunningResult(true),
            ];
            let acts = run_actions(cfg, (Phase::Starting { attempt: a }), events);
            count_starts(acts) == k && count_backoffs(acts) == k && run_phase(
                cfg,
                (Phase::Starting { attempt: a }),
                events,
            ) == Phase::Done
        }),
    decreases k,
{
    reveal_with_fuel(run_actions, 6);
    reveal_with_fuel(run_phase, 6);
    reveal_with_fuel(count_starts, 6);
    reveal_with_fuel(count_backoffs, 6);
    let tail = seq![Event::StartOk, Event::Waited, Event::RunningResult(true)];
    let events = failing_attempts(k) + tail;
    let acts = run_actions(cfg, (Phase::Starting { attempt: a }), events);
    if k == 0 {
        assert(events =~= tail);
        let e1 = events.drop_first();
        let e2 = e1.drop_first();
        let e3 = e2.drop_first();
        assert(e1 =~= seq![Event::Waited, Event::RunningResult(true)]);
        assert(e2 =~= seq![Event::RunningResult(true)]);
        assert(e3.len() == 0);
        assert(next(cfg, (Phase::Starting { attempt: a }), Event::StartOk) == (
            (Phase::Verifying { attempt: a }),
            Action::WaitVerify,
        ));
        assert(next(cfg, (Phase::Verifying { attempt: a }), Event::Waited) == (
            (Phase::Confirming { attempt: a }),
            Action::QueryRunning,
        ));
        assert(next(cfg, (Phase::Confirming { attempt: a }), Event::RunningResult(true)) == (
            Phase::Done,
            Action::Succeed,
        ));
        assert(acts =~= seq![Action::WaitVerify, Action::QueryRunning, Action::Succeed]);
        assert(count_starts(acts) == 0);
        assert(count_backoffs(acts) == 0);
    } else {
        assert(events[0] == Event::StartFailed);
        assert(a < cfg.max_attempts);
        assert(next(cfg, (Phase::Starting { attempt: a }), Event::StartFailed) == (
            (Phase::BackingOff { attempt: a }),
            Action::Backoff,
        ));
        let e1 = events.drop_first();
        assert(e1 =~= seq![Event::Waited] + (failing_attempts((k - 1) as nat) + tail));
        assert(e1[0] == Event::Waited);
        assert(next(cfg, (Phase::BackingOff { attempt: a }), Event::Waited) == (
            (Phase::Starting { attempt: (a + 1) as u32 }),
            Action::Start,
        ));
        let e2 = e1.drop_first();
        assert(e2 =~= failing_attempts((k - 1) as nat) + tail);
        lemma_start_loop_succeeds(cfg, (a + 1) as u32, (k - 1) as nat);
        let acts2 = run_actions(cfg, (Phase::Starting { attempt: (a + 1) as u32 }), e2);
        assert(acts =~= seq![Action::Backoff, Action::Start] + acts2);
        assert(acts.drop_first() =~= seq![Action::Start] + acts2);
        assert((seq![Action::Start] + acts2).drop_first() =~= acts2);
        assert(count_starts(acts) == k);
        assert(count_backoffs(acts) == k);
    }
}

/// The full retry account of a pass that finds its container stopped: `k`
/// failed attempts (each below the budget) and a success on the next one
/// give exactly `k + 1` start calls and `k` inter-attempt delays, and the
/// pass converges.
pub proof fn lemma_retry_until_success(cfg: StepCfg, k: nat)
    requires
        k < cfg.max_attempts,
    ensures
        ({
            let events = seq![Event::RunningResult(false)] + failing_attempts(k) + seq![
                Event::StartOk,
                Event::Waited,
                Event::RunningResult(true),
            ];
            let acts = run_actions(cfg, Phase::CheckingRunning, events);
            count_starts(acts) == k + 1 && count_backoffs(acts) == k && run_phase(
                cfg,
                Phase::CheckingRunning,
                events,
            ) == Phase::Done
        }),
{
    reveal_with_fuel(run_actions, 4);
    reveal_with_fuel(run_phase, 4);
    reveal_with_fuel(count_starts, 4);
    reveal_with_fuel(count_backoffs, 4);
    let tail = seq![Event::StartOk, Event::Waited, Event::RunningResult(true)];
    let events = seq![Event::RunningResult(false)] + failing_attempts(k) + tail;
    assert(events[0] == Event::RunningResult(false));
    assert(next(cfg, Phase::CheckingRunning, Event::RunningResult(false)) == (
        (Phase::Starting { attempt: 1 }),
        Action::Start,
    ));
    let e1 = events.drop_first();
    assert(e1 =~= failing_attempts(k) + tail);
    lemma_start_loop_succeeds(cfg, 1, k);
    let acts2 = run_actions(cfg, (Phase::Starting { attempt: 1 }), e1);
    let acts = run_actions(cfg, Phase::CheckingRunning, events);
    assert(acts =~= seq![Action::Start] + acts2);
    assert(acts.drop_first() =~= acts2);
    assert(count_starts(acts) == k + 1);
    assert(count_backoffs(acts) == k);
}

/// From attempt `a`, failing every start until the budget `a + k` is spent:
/// the run requests `k` further starts, then fails for good.
proof fn lemma_start_loop_exhausts(cfg: StepCfg, a: u32, k: nat)
    requires
        1 <= a,
        a + k == cfg.max_attempts,
    ensures
        ({
            let events = failing_attempts(k) + seq![Event::StartFailed];
            let acts = run_actions(cfg, (Phase::Starting { attempt: a }), events);
            count_starts(acts) == k && count_backoffs(acts) == k && run_phase(
                cfg,
                (Phase::Starting { attempt: a }),
                events,
            ) == (Phase::Failed(
                (ReconcileError::StartAttemptsExhausted { attempts: cfg.max_attempts }),
            ))
        }),
    decreases k,
{
    reveal_with_fuel(run_actions, 6);
    reveal_with_fuel(run_phase, 6);
    reveal_with_fuel(count_starts, 6);
    reveal_with_fuel(count_backoffs, 6);
    let tail = seq![Event::StartFailed];
    let events = failing_attempts(k) + tail;
    let acts = run_actions(cfg, (Phase::Starting { attempt: a }), events);
    if k == 0 {
        assert(events =~= tail);
        assert(events[0] == Event::StartFailed);
        assert(a == cfg.max_attempts);
        assert(next(cfg, (Phase::Starting { attempt: a }), Event::StartFailed) == fail_step(
            (ReconcileError::StartAttemptsExhausted { attempts: cfg.max_attempts }),
        ));
        assert(events.drop_first().len() == 0);
        assert(acts =~= seq![
            Action::Fail(
                (ReconcileError::StartAttemptsExhausted { attempts: cfg.max_attempts }),
            ),
        ]);
    } else {
        assert(events[0] == Event::StartFailed);
        assert(a < cfg.max_attempts);
        assert(next(cfg, (Phase::Starting { attempt: a }), Event::StartFailed) == (
            (Phase::BackingOff { attempt: a }),
            Action::Backoff,
        ));
        let e1 = events.drop_first();
        assert(e1 =~= seq![Event::Waited] + (failing_attempts((k - 1) as nat) + tail));
        assert(e1[0] == Event::Waited);
        assert(next(cfg, (Phase::BackingOff { attempt: a }), Event::Waited) == (
            (Phase::Starting { attempt: (a + 1) as u32 }),
            Action::Start,
        ));
        let e2 = e1.drop_first();
        assert(e2 =~= failing_attempts((k - 1) as nat) + tail);
        lemma_start_loop_exhausts(cfg, (a + 1) as u32, (k - 1) as nat);
        let acts2 = run_actions(cfg, (Phase::Starting { attempt: (a + 1) as u32 }), e2);
        assert(acts =~= seq![Action::Backoff, Action::Start] + acts2);
        assert(acts.drop_first() =~= seq![Action::Start] + acts2);
        assert((seq![Action::Start] + acts2).drop_first() =~= acts2);
        assert(count_starts(acts) == k);
        assert(count_backoffs(acts) == k);
    }
}

/// A pass whose container never starts fails after exactly the configured
/// number of attempts: the run issues the full budget of start calls, one
/// fewer inter-attempt delay, and ends in the exhaustion failure.
pub proof fn lemma_retry_exhaustion(cfg: StepCfg)
    requires
        cfg.max_attempts >= 1,
    ensures
        ({
            let events = seq![Event::RunningResult(false)] + failing_attempts(
                (cfg.max_attempts - 1) as nat,
            ) + seq![Event::StartFailed];
            let acts = run_actions(cfg, Phase::CheckingRunning, events);
            count_starts(acts) == cfg.max_attempts && count_backoffs(acts) == cfg.max_attempts - 1
                && run_phase(cfg, Phase::CheckingRunning, events) == (Phase::Failed(
                (ReconcileError::StartAttemptsExhausted { attempts: cfg.max_attempts }),
            ))
        }),
{
    reveal_with_fuel(run_actions, 4);
    reveal_with_fuel(run_phase, 4);
    reveal_with_fuel(count_starts, 4);
    reveal_with_fuel(count_backoffs, 4);
    let tail = seq![Event::StartFailed];
    let events = seq![Event::RunningResult(false)] + failing_attempts(
        (cfg.max_attempts - 1) as nat,
    ) + tail;
    assert(events[0] == Event::RunningResult(false));
    assert(next(cfg, Phase::CheckingRunning, Event::RunningResult(false)) == (
        (Phase::Starting { attempt: 1 }),
        Action::Start,
    ));
    let e1 = events.drop_first();
    assert(e1 =~= failing_attempts((cfg.max_attempts - 1) as nat) + tail);
    lemma_start_loop_exhausts(cfg, 1, (cfg.max_attempts - 1) as nat);
    let acts2 = run_actions(cfg, (Phase::Starting { attempt: 1 }), e1);
    let acts = run_actions(cfg, Phase::CheckingRunning, events);
    assert(acts =~= seq![Action::Start] + acts2);
    assert(acts.drop_first() =~= acts2);
}

/// A failed pass stays failed: no event moves the machine again, and no
/// action but the failure report is ever requested — in particular, no
/// further start attempt follows the exhaustion failure.
pub proof fn lemma_failure_is_terminal(cfg: StepCfg, e: ReconcileError, event: Event)
    ensures
        next(cfg, (Phase::Failed(e)), event) == (Phase::Failed(e), Action::Fail(e)),
{
}

/// A converged pass stays converged: after success the machine requests
/// nothing further.
pub proof fn lemma_success_is_terminal(cfg: StepCfg, event: Event)
    ensures
        next(cfg, Phase::Done, event) == (Phase::Done, Action::Succeed),
{
}

/// How far along its course a pass stands; transitions never move back.
pub open spec fn phase_rank(phase: Phase) -> int {
    match phase {
        Phase::EnsuringImage => 0,
        Phase::ResolvingExistence => 1,
        Phase::Creating => 2,
        Phase::PersistingLedger => 3,
        Phase::CheckingVersion => 4,
        Phase::CheckingRunning => 5,
        Phase::Starting { .. } => 6,
        Phase::Verifying { .. } => 6,
        Phase::Confirming { .. } => 6,
        Phase::BackingOff { .. } => 6,
        Phase::Done => 7,
        Phase::Failed(_) => 7,
    }
}

/// No transition moves a pass back to an earlier stage.
pub proof fn lemma_rank_never_decreases(cfg: StepCfg, phase: Phase, event: Event)
    ensures
        phase_rank(next(cfg, phase, event).0) >= phase_rank(phase),
{
}

/// The one step that writes the ledger: a creation answered (see
/// [`crate::reconcile::Reconciler::step`]'s ledger clauses).
pub open spec fn writes_ledger(phase: Phase, event: Event) -> bool {
    phase is Creating && event is Created
}

/// The phase a run stands in just before its `i`-th event.
pub open spec fn phase_before(cfg: StepCfg, phase: Phase, events: Seq<Event>, i: int) -> Phase
    decreases i,
{
    if i <= 0 {
        phase
    } else {
        next(cfg, phase_before(cfg, phase, events, i - 1), events[i - 1]).0
    }
}

proof fn lemma_rank_monotone_prefix(cfg: StepCfg, phase: Phase, events: Seq<Event>, i: int, j: int)
    requires
        0 <= i <= j,
    ensures
        phase_rank(phase_before(cfg, phase, events, j)) >= phase_rank(
            phase_before(cfg, phase, events, i),
        ),
    decreases j - i,
{
    if i < j {
        lemma_rank_monotone_prefix(cfg, phase, events, i, j - 1);
        lemma_rank_never_decreases(cfg, phase_before(cfg, phase, events, j - 1), events[j - 1]);
    }
}

/// A pass writes the ledger at most once: once a creation has been recorded
/// the run stands past the creation stage for good, so no later step can
/// write again.
pub proof fn lemma_at_most_one_ledger_write(
    cfg: StepCfg,
    phase: Phase,
    events: Seq<Event>,
    i: int,
    j: int,
)
    requires
        0 <= i < j,
        writes_ledger(phase_before(cfg, phase, events, i), events[i]),
    ensures
        !writes_ledger(phase_before(cfg, phase, events, j), events[j]),
{
    assert(phase_before(cfg, phase, events, i + 1) == next(
        cfg,
        phase_before(cfg, phase, events, i),
        events[i],
    ).0);
    assert(phase_rank(phase_before(cfg, phase, events, i + 1)) >= 3);
    lemma_rank_monotone_prefix(cfg, phase, events, i + 1, j);
}

} // verus!
