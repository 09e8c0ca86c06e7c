//! The reconciliation engine.  One reconcile pass converges the container
//! backing a project toward the project's declared configuration:
//!
//! 1. ensure the desired image is present;
//! 2. resolve the container identity — when the ledger has no record, or the
//!    recorded container no longer exists, create a new container and persist
//!    its ledger record *before* anything is started;
//! 3. fail fast on version drift in either direction;
//! 4. succeed as a no-op when the container already runs, otherwise start it
//!    with a bounded retry loop, verifying after each start that the
//!    container stayed up.
//!
//! The engine is a state machine: every outside effect — a daemon call, a
//! ledger save, a sleep — is requested as an [`Action`], and the caller
//! reports what happened as an [`Event`].  The machine decides; the caller
//! only performs.

use vstd::prelude::*;
use vstd::string::StringExecFns;

use crate::config::Project;
use crate::ledger::InstanceState;
use crate::ledger::InstanceView;
use crate::ledger::StateManager;
use crate::version::dec_digits;
use crate::version::spec_render;
use crate::version::PostgresVersion;

verus! {

/// How many start attempts a reconcile pass makes before giving up.
pub const MAX_START_ATTEMPTS: u32 = 10;

/// How long a freshly started container is watched before it counts as
/// running, in seconds.
pub const VERIFY_DURATION_SECS: u64 = 5;

/// The pause between two start attempts, in seconds.
pub const RETRY_BACKOFF_SECS: u64 = 1;

/// Why a reconcile pass failed.
#[derive(Clone, Copy, Debug, PartialEq, Eq, Structural)]
pub enum ReconcileError {
    /// The desired image could not be made available.
    ImageUnavailable,
    /// The container runtime did not answer an inspection.
    RuntimeUnavailable,
    /// The container could not be created.
    CreateFailed,
    /// The fresh ledger record could not be persisted.
    LedgerPersistFailed,
    /// The container carries no readable version label.
    VersionUnreadable,
    /// The configuration asks for a newer version than the container runs.
    UpgradeUnsupported { actual: PostgresVersion, desired: PostgresVersion },
    /// The configuration asks for an older version than the container runs.
    DowngradeUnsupported { actual: PostgresVersion, desired: PostgresVersion },
    /// Every start attempt failed.
    StartAttemptsExhausted { attempts: u32 },
}

/// What the machine asks its caller to do next.
#[derive(Clone, Copy, Debug, PartialEq, Eq, Structural)]
pub enum Action {
    /// Make sure the desired image is present, pulling it if missing.
    EnsureImage,
    /// Ask the runtime whether the recorded container still exists; a
    /// not-found answer is a normal negative, not a failure.
    CheckExists,
    /// Create the container from the project's configuration.
    Create,
    /// Persist the ledger.
    SaveLedger,
    /// Read the version label of the resolved container.
    ReadVersion,
    /// Ask the runtime whether the resolved container is running.
    QueryRunning,
    /// Issue a start call for the resolved container.
    Start,
    /// Wait the verification window after a start.
    WaitVerify,
    /// Sleep the backoff delay between two start attempts.
    Backoff,
    /// The pass is complete; the container is converged.
    Succeed,
    /// The pass failed; report the error.
    Fail(ReconcileError),
}

/// What the caller reports back after performing an action.
#[derive(Debug)]
pub enum Event {
    /// The desired image is present.
    ImageReady,
    /// Whether the recorded container still exists.
    ExistsResult(bool),
    /// The container was created; `now` is the current Unix time for the
    /// ledger record.
    Created { id: String, now: u64 },
    /// The ledger was persisted.
    LedgerSaved,
    /// The ledger could not be persisted.
    LedgerSaveFailed,
    /// The version label the resolved container carries.
    VersionLabel(PostgresVersion),
    /// Whether the resolved container is running.
    RunningResult(bool),
    /// The start call was accepted.
    StartOk,
    /// The start call failed.
    StartFailed,
    /// The requested wait has elapsed.
    Waited,
    /// The action failed for good: the daemon was unreachable, the answer
    /// was unusable, or the operation was refused.
    RuntimeFailed,
}

/// Where a reconcile pass stands.
#[derive(Clone, Copy, Debug, PartialEq, Eq, Structural)]
pub enum Phase {
    /// Waiting for the desired image to be present.
    EnsuringImage,
    /// Waiting to learn whether the recorded container still exists.
    ResolvingExistence,
    /// Waiting for a fresh container to be created.
    Creating,
    /// Waiting for the fresh record to reach disk, before any start.
    PersistingLedger,
    /// Waiting for the container's version label.
    CheckingVersion,
    /// Waiting to learn whether the container already runs.
    CheckingRunning,
    /// A start call for attempt `attempt` is out.
    Starting { attempt: u32 },
    /// Attempt `attempt` started; waiting out the verification window.
    Verifying { attempt: u32 },
    /// Waiting for the post-start running check of attempt `attempt`.
    Confirming { attempt: u32 },
    /// Attempt `attempt` failed; waiting out the backoff delay.
    BackingOff { attempt: u32 },
    /// The pass succeeded.
    Done,
    /// The pass failed.
    Failed(ReconcileError),
}

/// The part of the machine's configuration that the transition relation
/// reads: the desired version, whether the ledger had a record, and the
/// attempt budget.
#[derive(Clone, Copy, Debug, PartialEq, Eq, Structural)]
pub struct StepCfg {
    pub desired: PostgresVersion,
    pub has_record: bool,
    pub max_attempts: u32,
}

/// The action a phase is waiting on.
pub open spec fn pending_action(phase: Phase) -> Action {
    match phase {
        Phase::EnsuringImage => Action::EnsureImage,
        Phase::ResolvingExistence => Action::CheckExists,
        Phase::Creating => Action::Create,
        Phase::PersistingLedger => Action::SaveLedger,
        Phase::CheckingVersion => Action::ReadVersion,
        Phase::CheckingRunning => Action::QueryRunning,
        Phase::Starting { .. } => Action::Start,
        Phase::Verifying { .. } => Action::WaitVerify,
        Phase::Confirming { .. } => Action::QueryRunning,
        Phase::BackingOff { .. } => Action::Backoff,
        Phase::Done => Action::Succeed,
        Phase::Failed(e) => Action::Fail(e),
    }
}

/// The terminal failure transition.
pub open spec fn fail_step(e: ReconcileError) -> (Phase, Action) {
    (Phase::Failed(e), Action::Fail(e))
}

/// After a failed attempt: back off when attempts remain, fail for good
/// when the budget is spent.
pub open spec fn retry_or_give_up(cfg: StepCfg, attempt: u32) -> (Phase, Action) {
    if attempt < cfg.max_attempts {
        (Phase::BackingOff { attempt }, Action::Backoff)
    } else {
        fail_step(ReconcileError::StartAttemptsExhausted { attempts: cfg.max_attempts })
    }
}

/// The transition relation of the reconcile machine: from a phase and the
/// event answering its pending action, to the next phase and next action.
/// An event that answers no pending action leaves the machine where it
/// stands, re-requesting the pending action.
pub open spec fn next(cfg: StepCfg, phase: Phase, event: Event) -> (Phase, Action) {
    match (phase, event) {
        (Phase::EnsuringImage, Event::ImageReady) => if cfg.has_record {
            (Phase::ResolvingExistence, Action::CheckExists)
        } else {
            (Phase::Creating, Action::Create)
        },
        (Phase::EnsuringImage, Event::RuntimeFailed) => fail_step(ReconcileError::ImageUnavailable),
        (Phase::ResolvingExistence, Event::ExistsResult(exists_now)) => if exists_now {
            (Phase::CheckingVersion, Action::ReadVersion)
        } else {
            (Phase::Creating, Action::Create)
        },
        (Phase::ResolvingExistence, Event::RuntimeFailed) => fail_step(
            ReconcileError::RuntimeUnavailable,
        ),
        (Phase::Creating, Event::Created { .. }) => (Phase::PersistingLedger, Action::SaveLedger),
        (Phase::Creating, Event::RuntimeFailed) => fail_step(ReconcileError::CreateFailed),
        (Phase::PersistingLedger, Event::LedgerSaved) => (
            Phase::CheckingVersion,
            Action::ReadVersion,
        ),
        (Phase::PersistingLedger, Event::LedgerSaveFailed) => fail_step(
            ReconcileError::LedgerPersistFailed,
        ),
        (Phase::CheckingVersion, Event::VersionLabel(actual)) => if actual == cfg.desired {
            (Phase::CheckingRunning, Action::QueryRunning)
        } else if actual.spec_lt(cfg.desired) {
            fail_step(ReconcileError::UpgradeUnsupported { actual, desired: cfg.desired })
        } else {
            fail_step(ReconcileError::DowngradeUnsupported { actual, desired: cfg.desired })
        },
        (Phase::CheckingVersion, Event::RuntimeFailed) => fail_step(
            ReconcileError::VersionUnreadable,
        ),
        (Phase::CheckingRunning, Event::RunningResult(running)) => if running {
            (Phase::Done, Action::Succeed)
        } else {
            (Phase::Starting { attempt: 1 }, Action::Start)
        },
        (Phase::CheckingRunning, Event::RuntimeFailed) => fail_step(
            ReconcileError::RuntimeUnavailable,
        ),
        (Phase::Starting { attempt }, Event::StartOk) => (
            Phase::Verifying { attempt },
            Action::WaitVerify,
        ),
        (Phase::Starting { attempt }, Event::StartFailed) => retry_or_give_up(cfg, attempt),
        (Phase::Verifying { attempt }, Event::Waited) => (
            Phase::Confirming { attempt },
            Action::QueryRunning,
        ),
        (Phase::Confirming { attempt }, Event::RunningResult(running)) => if running {
            (Phase::Done, Action::Succeed)
        } else {
            retry_or_give_up(cfg, attempt)
        },
        (Phase::Confirming { attempt }, Event::RuntimeFailed) => retry_or_give_up(cfg, attempt),
        (Phase::BackingOff { attempt }, Event::Waited) => (
            Phase::Starting { attempt: (attempt + 1) as u32 },
            Action::Start,
        ),
        (_, _) => (phase, pending_action(phase)),
    }
}

/// One reconcile pass for one project.  The machine holds the desired
/// configuration, the container id it has resolved so far, and its phase;
/// the caller performs each requested [`Action`] and reports the outcome
/// through [`Reconciler::step`].
pub struct Reconciler {
    /// The project's name; keys the ledger record.
    pub name: String,
    /// The version the configuration asks for.
    pub version: PostgresVersion,
    /// The host port the configuration asks for.
    pub port: u16,
    /// How many start attempts the pass may make.
    pub max_attempts: u32,
    /// The container id the ledger recorded, if any.
    pub recorded_id: Option<String>,
    /// The container the pass has resolved to act on, once known.
    pub container_id: Option<String>,
    /// Where the pass stands.
    pub phase: Phase,
}

impl Reconciler {
    /// The configuration the transition relation reads.
    pub open spec fn cfg(self) -> StepCfg {
        StepCfg {
            desired: self.version,
            has_record: self.recorded_id is Some,
            max_attempts: self.max_attempts,
        }
    }

    /// True when the phase acts on an already-resolved container.
    pub open spec fn phase_has_container(phase: Phase) -> bool {
        match phase {
            Phase::PersistingLedger => true,
            Phase::CheckingVersion => true,
            Phase::CheckingRunning => true,
            Phase::Starting { .. } => true,
            Phase::Verifying { .. } => true,
            Phase::Confirming { .. } => true,
            Phase::BackingOff { .. } => true,
            _ => false,
        }
    }

    /// The machine's invariant: the attempt budget is positive, attempt
    /// counters stay within it, existence is only resolved for a recorded
    /// container, and every phase past creation knows its container.
    pub open spec fn wf(self) -> bool {
        &&& self.max_attempts >= 1
        &&& (self.phase matches Phase::Starting { attempt } ==> 1 <= attempt
            <= self.max_attempts)
        &&& (self.phase matches Phase::Verifying { attempt } ==> 1 <= attempt
            <= self.max_attempts)
        &&& (self.phase matches Phase::Confirming { attempt } ==> 1 <= attempt
            <= self.max_attempts)
        &&& (self.phase matches Phase::BackingOff { attempt } ==> 1 <= attempt
            < self.max_attempts)
        &&& (self.phase is ResolvingExistence ==> self.recorded_id is Some)
        &&& (Self::phase_has_container(self.phase) ==> self.container_id is Some)
    }

    /// Sets up a reconcile pass for a project, with the ledger record the
    /// caller found for it, if any.  The machine starts by waiting on
    /// [`Action::EnsureImage`].
    pub fn new(project: &Project, instance: Option<&InstanceState>, max_attempts: u32) -> (r:
        Reconciler)
        requires
            max_attempts >= 1,
        ensures
            r.wf(),
            r.phase == Phase::EnsuringImage,
            r.name@ == project.name@,
            r.version == project.config.version,
            r.port == project.config.port,
            r.max_attempts == max_attempts,
            r.recorded_id is Some <==> instance is Some,
            instance matches Some(rec) ==> (r.recorded_id matches Some(id) && id@
                == rec.container_id@),
            r.container_id is None,
    {
        let recorded_id = match instance {
            Some(rec) => Some(rec.container_id.clone()),
            None => None,
        };
        Reconciler {
            name: project.name.clone(),
            version: project.config.version,
            port: project.config.port,
            max_attempts,
            recorded_id,
            container_id: None,
            phase: Phase::EnsuringImage,
        }
    }

    /// The action the machine is waiting on.
    pub fn pending(&self) -> (a: Action)
        ensures
            a == pending_action(self.phase),
    {
        match self.phase {
            Phase::EnsuringImage => Action::EnsureImage,
            Phase::ResolvingExistence => Action::CheckExists,
            Phase::Creating => Action::Create,
            Phase::PersistingLedger => Action::SaveLedger,
            Phase::CheckingVersion => Action::ReadVersion,
            Phase::CheckingRunning => Action::QueryRunning,
            Phase::Starting { .. } => Action::Start,
            Phase::Verifying { .. } => Action::WaitVerify,
            Phase::Confirming { .. } => Action::QueryRunning,
            Phase::BackingOff { .. } => Action::Backoff,
            Phase::Done => Action::Succeed,
            Phase::Failed(e) => Action::Fail(e),
        }
    }

    /// True when the pass has reached a terminal phase.
    pub fn is_settled(&self) -> (r: bool)
        ensures
            r == (self.phase is Done || self.phase is Failed),
    {
        match self.phase {
            Phase::Done => true,
            Phase::Failed(_) => true,
            _ => false,
        }
    }

    /// Moves the machine to its terminal failure.
    fn fail(&mut self, e: ReconcileError) -> (a: Action)
        ensures
            (final(self).phase, a) == fail_step(e),
            final(self).name == old(self).name,
            final(self).version == old(self).version,
            final(self).port == old(self).port,
            final(self).max_attempts == old(self).max_attempts,
            final(self).recorded_id == old(self).recorded_id,
            final(self).container_id == old(self).container_id,
    {
        self.phase = Phase::Failed(e);
        Action::Fail(e)
    }

    /// After a failed start attempt: back off or give up.
    fn retry_or_fail(&mut self, attempt: u32) -> (a: Action)
        requires
            1 <= attempt <= old(self).max_attempts,
        ensures
            (final(self).phase, a) == retry_or_give_up(old(self).cfg(), attempt),
            final(self).name == old(self).name,
            final(self).version == old(self).version,
            final(self).port == old(self).port,
            final(self).max_attempts == old(self).max_attempts,
            final(self).recorded_id == old(self).recorded_id,
            final(self).container_id == old(self).container_id,
    {
        if attempt < self.max_attempts {
            self.phase = Phase::BackingOff { attempt };
            Action::Backoff
        } else {
            let attempts = self.max_attempts;
            self.fail(ReconcileError::StartAttemptsExhausted { attempts })
        }
    }

    /// Feeds the machine the outcome of its pending action.  The transition
    /// follows [`next`]; the desired configuration never changes; the ledger
    /// is written exactly once, with the fresh record, when a container was
    /// created — and persisted before any start can be requested.
    pub fn step(&mut self, event: Event, ledger: &mut StateManager) -> (a: Action)
        requires
            old(self).wf(),
            old(ledger).wf(),
        ensures
            final(self).wf(),
            final(ledger).wf(),
            (final(self).phase, a) == next(old(self).cfg(), old(self).phase, event),
            final(self).name == old(self).name,
            final(self).version == old(self).version,
            final(self).port == old(self).port,
            final(self).max_attempts == old(self).max_attempts,
            final(self).recorded_id == old(self).recorded_id,
            // the resolved container: adopted from the ledger record when it
            // still exists, replaced by the fresh id when one was created,
            // untouched otherwise
            (old(self).phase is ResolvingExistence && event == Event::ExistsResult(true))
                ==> final(self).container_id == old(self).recorded_id,
            event matches Event::Created { id, .. } ==> (old(self).phase is Creating
                ==> (final(self).container_id matches Some(c) && c@ == id@)),
            (!(old(self).phase is Creating && event is Created)
                && !(old(self).phase is ResolvingExistence
                && event == Event::ExistsResult(true)))
                ==> final(self).container_id == old(self).container_id,
            // the ledger: written exactly when a container was created, with
            // the record of the fresh container, wholesale
            event matches Event::Created { id, now } ==> (old(self).phase is Creating
                ==> final(ledger)@ == old(ledger)@.insert(
                old(self).name@,
                (InstanceView {
                    container_id: id@,
                    postgres_version: old(self).version,
                    port: old(self).port,
                    created_at: now,
                }),
            )),
            !(old(self).phase is Creating && event is Created) ==> *final(ledger) == *old(ledger),
    {
        match (self.phase, event) {
            (Phase::EnsuringImage, Event::ImageReady) => {
                if self.recorded_id.is_some() {
                    self.phase = Phase::ResolvingExistence;
                    Action::CheckExists
                } else {
                    self.phase = Phase::Creating;
                    Action::Create
                }
            },
            (Phase::EnsuringImage, Event::RuntimeFailed) => self.fail(
                ReconcileError::ImageUnavailable,
            ),
            (Phase::ResolvingExistence, Event::ExistsResult(exists_now)) => {
                if exists_now {
                    self.container_id = match &self.recorded_id {
                        Some(id) => Some(id.clone()),
                        None => None,
                    };
                    self.phase = Phase::CheckingVersion;
                    Action::ReadVersion
                } else {
                    self.phase = Phase::Creating;
                    Action::Create
                }
            },
            (Phase::ResolvingExistence, Event::RuntimeFailed) => self.fail(
                ReconcileError::RuntimeUnavailable,
            ),
            (Phase::Creating, Event::Created { id, now }) => {
                let record = InstanceState::new(id.clone(), self.version, self.port, now);
                ledger.upsert(self.name.clone(), record);
                self.container_id = Some(id);
                self.phase = Phase::PersistingLedger;
                Action::SaveLedger
            },
            (Phase::Creating, Event::RuntimeFailed) => self.fail(ReconcileError::CreateFailed),
            (Phase::PersistingLedger, Event::LedgerSaved) => {
                self.phase = Phase::CheckingVersion;
                Action::ReadVersion
            },
            (Phase::PersistingLedger, Event::LedgerSaveFailed) => self.fail(
                ReconcileError::LedgerPersistFailed,
            ),
            (Phase::CheckingVersion, Event::VersionLabel(actual)) => {
                if actual == self.version {
                    self.phase = Phase::CheckingRunning;
                    Action::QueryRunning
                } else if actual.lt(&self.version) {
                    let desired = self.version;
                    self.fail(ReconcileError::UpgradeUnsupported { actual, desired })
                } else {
                    let desired = self.version;
                    self.fail(ReconcileError::DowngradeUnsupported { actual, desired })
                }
            },
            (Phase::CheckingVersion, Event::RuntimeFailed) => self.fail(
                ReconcileError::VersionUnreadable,
            ),
            (Phase::CheckingRunning, Event::RunningResult(running)) => {
                if running {
                    self.phase = Phase::Done;
                    Action::Succeed
                } else {
                    self.phase = Phase::Starting { attempt: 1 };
                    Action::Start
                }
            },
            (Phase::CheckingRunning, Event::RuntimeFailed) => self.fail(
                ReconcileError::RuntimeUnavailable,
            ),
            (Phase::Starting { attempt }, Event::StartOk) => {
                self.phase = Phase::Verifying { attempt };
                Action::WaitVerify
            },
            (Phase::Starting { attempt }, Event::StartFailed) => self.retry_or_fail(attempt),
            (Phase::Verifying { attempt }, Event::Waited) => {
                self.phase = Phase::Confirming { attempt };
                Action::QueryRunning
            },
            (Phase::Confirming { attempt }, Event::RunningResult(running)) => {
                if running {
                    self.phase = Phase::Done;
                    Action::Succeed
                } else {
                    self.retry_or_fail(attempt)
                }
            },
            (Phase::Confirming { attempt }, Event::RuntimeFailed) => self.retry_or_fail(attempt),
            (Phase::BackingOff { attempt }, Event::Waited) => {
                self.phase = Phase::Starting { attempt: attempt + 1 };
                Action::Start
            },
            (_, _) => self.pending(),
        }
    }
}

/// The human-readable account of a reconcile failure.
pub open spec fn spec_message(e: ReconcileError) -> Seq<char> {
    match e {
        ReconcileError::ImageUnavailable => "the PostgreSQL image could not be made available"@,
        ReconcileError::RuntimeUnavailable => "the container runtime did not answer"@,
        ReconcileError::CreateFailed => "the container could not be created"@,
        ReconcileError::LedgerPersistFailed => "the instance ledger could not be saved"@,
        ReconcileError::VersionUnreadable => "the container's version label could not be read"@,
        ReconcileError::UpgradeUnsupported { actual, desired } => "cannot upgrade PostgreSQL from "@
            + spec_render(actual) + " to "@ + spec_render(desired) + ": upgrades are unsupported"@,
        ReconcileError::DowngradeUnsupported { actual, desired } =>
        "cannot downgrade PostgreSQL from "@ + spec_render(actual) + " to "@ + spec_render(desired)
            + ": downgrades are unsupported"@,
        ReconcileError::StartAttemptsExhausted { attempts } => "failed to start container after "@
            + dec_digits(attempts as nat) + " attempts"@,
    }
}

impl ReconcileError {
    /// Writes the failure out; drift errors name both versions.
    pub fn message(&self) -> (r: String)
        ensures
            r@ == spec_message(*self),
    {
        match *self {
            ReconcileError::ImageUnavailable => String::from_str(
                "the PostgreSQL image could not be made available",
            ),
            ReconcileError::RuntimeUnavailable => String::from_str(
                "the container runtime did not answer",
            ),
            ReconcileError::CreateFailed => String::from_str("the container could not be created"),
            ReconcileError::LedgerPersistFailed => String::from_str(
                "the instance ledger could not be saved",
            ),
            ReconcileError::VersionUnreadable => String::from_str(
                "the container's version label could not be read",
            ),
            ReconcileError::UpgradeUnsupported { actual, desired } => {
                let mut s = String::from_str("cannot upgrade PostgreSQL from ");
                let a = actual.render();
                s.append(a.as_str());
                s.append(" to ");
                let d = desired.render();
                s.append(d.as_str());
                s.append(": upgrades are unsupported");
                s
            },
            ReconcileError::DowngradeUnsupported { actual, desired } => {
                let mut s = String::from_str("cannot downgrade PostgreSQL from ");
                let a = actual.render();
                s.append(a.as_str());
                s.append(" to ");
                let d = desired.render();
                s.append(d.as_str());
                s.append(": downgrades are unsupported");
                s
            },
            ReconcileError::StartAttemptsExhausted { attempts } => {
                let mut s = String::from_str("failed to start container after ");
                let n = crate::version::decimal_string(attempts);
                s.append(n.as_str());
                s.append(" attempts");
                s
            },
        }
    }
}

} // verus!
