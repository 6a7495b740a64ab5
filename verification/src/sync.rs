//! The reconciliation engine's decision logic: the create-with-retry
//! state machine, the classification of creation failures, the
//! aggregation of per-path outcomes into a `SyncResult`, and the
//! validated target computation for ensuring a single path.
//!
//! The filesystem work itself — attempting a creation, sleeping out a
//! backoff delay — is performed by the caller, which feeds each attempt's
//! outcome back into the state machine.

use vstd::prelude::*;

use crate::paths::PathError;
use crate::paths::has_parent_component;
use crate::paths::spec_is_absolute;
use crate::paths::spec_join;

verus! {

/// How often a transient creation failure is retried.
pub const MAX_RETRIES: u32 = 3;

/// The backoff delay before the first retry, in milliseconds.
pub const INITIAL_RETRY_DELAY_MS: u64 = 50;

/// Each further retry waits twice as long as the previous one.
pub const RETRY_BACKOFF_MULTIPLIER: u64 = 2;

/// What kind of error a directory-creation attempt reported, reduced to
/// the classes the retry policy distinguishes.
#[derive(Debug, Clone, Copy, PartialEq, Eq, Structural)]
pub enum CreateErrorKind {
    /// The directory already exists; counted as success.
    AlreadyExists,
    /// A permission race; transient, worth retrying.
    PermissionDenied,
    /// A sharing violation reported by the OS; transient.
    SharingViolation,
    /// A lock violation reported by the OS; transient.
    LockViolation,
    /// Any other failure; permanent.
    Other,
}

/// The outcome of one creation attempt, as observed by the caller.
#[derive(Debug, Clone, Copy, PartialEq, Eq, Structural)]
pub enum AttemptOutcome {
    /// The directory now exists; `newly_created` tells whether this
    /// attempt made it.
    Succeeded { newly_created: bool },
    /// The attempt failed with the given class of error.
    Failed { kind: CreateErrorKind },
}

/// The retry state machine's position between attempts: how many retries
/// were already taken and how long the next backoff would wait.
#[derive(Debug, Clone, Copy, PartialEq, Eq, Structural)]
pub struct RetryState {
    pub attempt: u32,
    pub delay_ms: u64,
}

/// What the state machine directs after an attempt's outcome.
#[derive(Debug, Clone, Copy, PartialEq, Eq, Structural)]
pub enum RetryStep {
    /// The directory exists; `newly_created` tells whether this run of
    /// attempts made it.
    Succeeded { newly_created: bool },
    /// Wait `wait_ms`, then attempt again from `next`.
    Retrying { wait_ms: u64, next: RetryState },
    /// Permanent failure, or retries exhausted.
    Failed,
}

/// The backoff delay scheduled after `attempt` retries.
pub open spec fn spec_delay(attempt: nat) -> nat
    decreases attempt,
{
    if attempt == 0 {
        INITIAL_RETRY_DELAY_MS as nat
    } else {
        spec_delay((attempt - 1) as nat) * RETRY_BACKOFF_MULTIPLIER as nat
    }
}

/// A reachable state: no more retries than allowed were taken and the
/// delay is the doubled-out initial delay.
pub open spec fn retry_state_wf(s: RetryState) -> bool {
    s.attempt <= MAX_RETRIES && s.delay_ms == spec_delay(s.attempt as nat)
}

/// A transient failure: one of the documented contention errors that a
/// short wait may resolve.
pub open spec fn spec_is_transient(kind: CreateErrorKind) -> bool {
    kind == CreateErrorKind::PermissionDenied || kind == CreateErrorKind::SharingViolation || kind
        == CreateErrorKind::LockViolation
}

/// The delays stay small: after at most `MAX_RETRIES` doublings the
/// backoff is still far below any overflow bound.
pub proof fn lemma_delay_bounded(attempt: nat)
    requires
        attempt <= MAX_RETRIES,
    ensures
        spec_delay(attempt) <= 400,
{
    assert(spec_delay(0) == 50);
    assert(spec_delay(1) == 100);
    assert(spec_delay(2) == 200);
    assert(spec_delay(3) == 400);
}

impl RetryState {
    /// The state before the first attempt.
    pub fn new() -> (r: RetryState)
        ensures
            retry_state_wf(r),
            r.attempt == 0,
            r.delay_ms == INITIAL_RETRY_DELAY_MS,
    {
        RetryState { attempt: 0, delay_ms: INITIAL_RETRY_DELAY_MS }
    }

    /// Advances the state machine on one attempt's outcome. Success and
    /// an already-existing directory finish the run; a transient failure
    /// with retries left schedules a doubled backoff; anything else is a
    /// permanent failure.
    pub fn step(self, outcome: AttemptOutcome) -> (r: RetryStep)
        requires
            retry_state_wf(self),
        ensures
            outcome matches AttemptOutcome::Succeeded { newly_created } ==> r == (
            RetryStep::Succeeded { newly_created }),
            outcome == (AttemptOutcome::Failed { kind: CreateErrorKind::AlreadyExists }) ==> r == (
            RetryStep::Succeeded { newly_created: false }),
            (outcome matches AttemptOutcome::Failed { kind } && spec_is_transient(kind)
                && self.attempt < MAX_RETRIES) ==> r == (RetryStep::Retrying {
                wait_ms: self.delay_ms,
                next: (RetryState {
                    attempt: (self.attempt + 1) as u32,
                    delay_ms: (self.delay_ms * RETRY_BACKOFF_MULTIPLIER) as u64,
                }),
            }),
            (outcome matches AttemptOutcome::Failed { kind } && spec_is_transient(kind)
                && self.attempt < MAX_RETRIES) ==> (r matches RetryStep::Retrying { next, .. }
                && retry_state_wf(next)),
            (outcome matches AttemptOutcome::Failed { kind } && kind
                != CreateErrorKind::AlreadyExists && !(spec_is_transient(kind) && self.attempt
                < MAX_RETRIES)) ==> r == RetryStep::Failed,
    {
        match outcome {
            AttemptOutcome::Succeeded { newly_created } => RetryStep::Succeeded { newly_created },
            AttemptOutcome::Failed { kind } => {
                if kind == CreateErrorKind::AlreadyExists {
                    RetryStep::Succeeded { newly_created: false }
                } else if is_transient(kind) && self.attempt < MAX_RETRIES {
                    proof {
                        lemma_delay_bounded(self.attempt as nat);
                    }
                    RetryStep::Retrying {
                        wait_ms: self.delay_ms,
                        next: RetryState {
                            attempt: self.attempt + 1,
                            delay_ms: self.delay_ms * RETRY_BACKOFF_MULTIPLIER,
                        },
                    }
                } else {
                    RetryStep::Failed
                }
            },
        }
    }
}

/// Decides whether a failure class is transient.
pub fn is_transient(kind: CreateErrorKind) -> (r: bool)
    ensures
        r == spec_is_transient(kind),
{
    match kind {
        CreateErrorKind::PermissionDenied => true,
        CreateErrorKind::SharingViolation => true,
        CreateErrorKind::LockViolation => true,
        _ => false,
    }
}

/// What one side's create-with-retry run reported for one path.
#[derive(Debug, Clone, PartialEq, Eq)]
pub enum SideOutcome {
    /// The directory was newly created.
    Created,
    /// The directory already existed.
    Existed,
    /// Creation failed; the message carries the path and OS error text.
    Failed { message: String },
}

/// The two sides' outcomes for one path of the union.
#[derive(Debug, Clone, PartialEq, Eq)]
pub struct PathOutcome {
    pub scripts: SideOutcome,
    pub data: SideOutcome,
}

/// Result of a sync operation: per-side counts of directories created
/// and already existing, with collected warnings and errors.
#[derive(Debug, Clone, PartialEq, Eq)]
pub struct SyncResult {
    pub created_in_scripts: usize,
    pub created_in_data: usize,
    pub existing_in_scripts: usize,
    pub existing_in_data: usize,
    pub warnings: Vec<String>,
    pub errors: Vec<String>,
}

impl SyncResult {
    /// An empty result: nothing created, nothing existing, no messages.
    pub fn new() -> (r: SyncResult)
        ensures
            r.created_in_scripts == 0,
            r.created_in_data == 0,
            r.existing_in_scripts == 0,
            r.existing_in_data == 0,
            r.warnings@ == Seq::<String>::empty(),
            r.errors@ == Seq::<String>::empty(),
    {
        SyncResult {
            created_in_scripts: 0,
            created_in_data: 0,
            existing_in_scripts: 0,
            existing_in_data: 0,
            warnings: Vec::new(),
            errors: Vec::new(),
        }
    }

    /// Directories created, both sides together.
    pub fn created_total(&self) -> (r: usize)
        requires
            self.created_in_scripts + self.created_in_data <= usize::MAX,
        ensures
            r == self.created_in_scripts + self.created_in_data,
    {
        self.created_in_scripts + self.created_in_data
    }

    /// Directories found already existing, both sides together.
    pub fn existing_total(&self) -> (r: usize)
        requires
            self.existing_in_scripts + self.existing_in_data <= usize::MAX,
        ensures
            r == self.existing_in_scripts + self.existing_in_data,
    {
        self.existing_in_scripts + self.existing_in_data
    }

    /// Overall success: no error was recorded. Warnings do not affect
    /// success.
    pub fn is_ok(&self) -> (r: bool)
        ensures
            r == (self.errors@.len() == 0),
    {
        self.errors.len() == 0
    }
}

/// How many of the scripts-side outcomes report a creation.
pub open spec fn count_scripts_created(s: Seq<PathOutcome>) -> nat
    decreases s.len(),
{
    if s.len() == 0 {
        0
    } else {
        count_scripts_created(s.drop_last()) + (if s.last().scripts == SideOutcome::Created {
            1nat
        } else {
            0nat
        })
    }
}

/// How many of the data-side outcomes report a creation.
pub open spec fn count_data_created(s: Seq<PathOutcome>) -> nat
    decreases s.len(),
{
    if s.len() == 0 {
        0
    } else {
        count_data_created(s.drop_last()) + (if s.last().data == SideOutcome::Created {
            1nat
        } else {
            0nat
        })
    }
}

/// How many of the scripts-side outcomes found the directory existing.
pub open spec fn count_scripts_existing(s: Seq<PathOutcome>) -> nat
    decreases s.len(),
{
    if s.len() == 0 {
        0
    } else {
        count_scripts_existing(s.drop_last()) + (if s.last().scripts == SideOutcome::Existed {
            1nat
        } else {
            0nat
        })
    }
}

/// How many of the data-side outcomes found the directory existing.
pub open spec fn count_data_existing(s: Seq<PathOutcome>) -> nat
    decreases s.len(),
{
    if s.len() == 0 {
        0
    } else {
        count_data_existing(s.drop_last()) + (if s.last().data == SideOutcome::Existed {
            1nat
        } else {
            0nat
        })
    }
}

/// The failure messages of the outcomes, scripts side before data side
/// for each path, in path order.
pub open spec fn error_messages(s: Seq<PathOutcome>) -> Seq<Seq<char>>
    decreases s.len(),
{
    if s.len() == 0 {
        Seq::empty()
    } else {
        error_messages(s.drop_last()) + side_messages(s.last())
    }
}

/// The failure messages of one path's two outcomes.
pub open spec fn side_messages(o: PathOutcome) -> Seq<Seq<char>> {
    (match o.scripts {
        SideOutcome::Failed { message } => seq![message@],
        _ => Seq::<Seq<char>>::empty(),
    }) + (match o.data {
        SideOutcome::Failed { message } => seq![message@],
        _ => Seq::<Seq<char>>::empty(),
    })
}

/// Each per-side count is bounded by the number of outcomes.
pub proof fn lemma_counts_bounded(s: Seq<PathOutcome>)
    ensures
        count_scripts_created(s) <= s.len(),
        count_data_created(s) <= s.len(),
        count_scripts_existing(s) <= s.len(),
        count_data_existing(s) <= s.len(),
    decreases s.len(),
{
    if s.len() > 0 {
        lemma_counts_bounded(s.drop_last());
    }
}

/// Merges the independent per-path outcomes of a reconciliation run into
/// one `SyncResult`. Failures on one path never disturb the counting of
/// its siblings.
pub fn summarize_outcomes(outcomes: &Vec<PathOutcome>) -> (r: SyncResult)
    ensures
        r.created_in_scripts == count_scripts_created(outcomes@),
        r.created_in_data == count_data_created(outcomes@),
        r.existing_in_scripts == count_scripts_existing(outcomes@),
        r.existing_in_data == count_data_existing(outcomes@),
        r.errors.deep_view() == error_messages(outcomes@),
        r.warnings@ == Seq::<String>::empty(),
{
    let mut r = SyncResult::new();
    let mut i: usize = 0;
    proof {
        assert(outcomes@.take(0) =~= Seq::<PathOutcome>::empty());
        assert(r.errors.deep_view() =~= Seq::<Seq<char>>::empty());
    }
    while i < outcomes.len()
        invariant
            0 <= i <= outcomes.len(),
            r.created_in_scripts == count_scripts_created(outcomes@.take(i as int)),
            r.created_in_data == count_data_created(outcomes@.take(i as int)),
            r.existing_in_scripts == count_scripts_existing(outcomes@.take(i as int)),
            r.existing_in_data == count_data_existing(outcomes@.take(i as int)),
            r.errors.deep_view() == error_messages(outcomes@.take(i as int)),
            r.warnings@ == Seq::<String>::empty(),
        decreases outcomes.len() - i,
    {
        proof {
            assert(outcomes@.take(i + 1).drop_last() =~= outcomes@.take(i as int));
            assert(outcomes@.take(i + 1).last() == outcomes@[i as int]);
            lemma_counts_bounded(outcomes@.take(i as int));
        }
        let o = &outcomes[i];
        let ghost dv = r.errors.deep_view();
        match &o.scripts {
            SideOutcome::Created => {
                r.created_in_scripts = r.created_in_scripts + 1;
            },
            SideOutcome::Existed => {
                r.existing_in_scripts = r.existing_in_scripts + 1;
            },
            SideOutcome::Failed { message } => {
                r.errors.push(message.clone());
            },
        }
        let ghost dv2 = r.errors.deep_view();
        match &o.data {
            SideOutcome::Created => {
                r.created_in_data = r.created_in_data + 1;
            },
            SideOutcome::Existed => {
                r.existing_in_data = r.existing_in_data + 1;
            },
            SideOutcome::Failed { message } => {
                r.errors.push(message.clone());
            },
        }
        proof {
            assert(r.errors.deep_view() =~= dv + side_messages(outcomes@[i as int]));
            assert(r.errors.deep_view() =~= error_messages(outcomes@.take(i + 1)));
        }
        i = i + 1;
    }
    proof {
        assert(outcomes@.take(outcomes@.len() as int) =~= outcomes@);
    }
    r
}

/// Idempotence of reconciliation: when every path of the union reports
/// "already existed" on both sides — as a second run over unchanged trees
/// does — nothing is created, the existing counts on each side equal the
/// union's size, and no error is recorded.
pub proof fn lemma_rerun_reports_existing(outcomes: Seq<PathOutcome>)
    requires
        forall|i: int|
            0 <= i < outcomes.len() ==> (#[trigger] outcomes[i]).scripts == SideOutcome::Existed
                && outcomes[i].data == SideOutcome::Existed,
    ensures
        count_scripts_created(outcomes) == 0,
        count_data_created(outcomes) == 0,
        count_scripts_existing(outcomes) == outcomes.len(),
        count_data_existing(outcomes) == outcomes.len(),
        error_messages(outcomes) == Seq::<Seq<char>>::empty(),
    decreases outcomes.len(),
{
    if outcomes.len() > 0 {
        lemma_rerun_reports_existing(outcomes.drop_last());
        assert(error_messages(outcomes) =~= Seq::<Seq<char>>::empty());
    }
}

/// What the creation step reports for one path on one root whose
/// existing directories are `existing`: a creation when the path is
/// absent, "already existed" when it is present.
pub open spec fn model_side(existing: Set<Seq<char>>, p: Seq<char>) -> SideOutcome {
    if existing.contains(p) {
        SideOutcome::Existed
    } else {
        SideOutcome::Created
    }
}

/// Idempotence of reconciliation, at the tree level: a run whose per-path
/// outcomes follow `model_side` over trees that already hold every path
/// of the union — as both trees do after a successful first run — creates
/// nothing, reports every path as existing on both sides, and records no
/// error.
pub proof fn lemma_reconcile_idempotent(
    left: Set<Seq<char>>,
    right: Set<Seq<char>>,
    union_paths: Seq<Seq<char>>,
    outcomes: Seq<PathOutcome>,
)
    requires
        outcomes.len() == union_paths.len(),
        forall|i: int|
            0 <= i < outcomes.len() ==> (#[trigger] outcomes[i]).scripts == model_side(
                left,
                union_paths[i],
            ) && outcomes[i].data == model_side(right, union_paths[i]),
        forall|i: int|
            0 <= i < union_paths.len() ==> left.contains(#[trigger] union_paths[i])
                && right.contains(union_paths[i]),
    ensures
        count_scripts_created(outcomes) == 0,
        count_data_created(outcomes) == 0,
        count_scripts_existing(outcomes) == outcomes.len(),
        count_data_existing(outcomes) == outcomes.len(),
        error_messages(outcomes) == Seq::<Seq<char>>::empty(),
{
    assert forall|i: int| 0 <= i < outcomes.len() implies (#[trigger] outcomes[i]).scripts
        == SideOutcome::Existed && outcomes[i].data == SideOutcome::Existed by {
        assert(left.contains(union_paths[i]));
    }
    lemma_rerun_reports_existing(outcomes);
}

/// Computes the two creation targets for ensuring one relative path under
/// both roots, after validating the path. Validation happens before any
/// filesystem access: an absolute path or one with a `..` component is
/// rejected here.
pub fn plan_single_path(scripts_root: &str, data_root: &str, rel_path: &str) -> (r: Result<
    (String, String),
    PathError,
>)
    ensures
        spec_is_absolute(rel_path@) ==> r == Err::<(String, String), PathError>(
            PathError::Absolute,
        ),
        !spec_is_absolute(rel_path@) && has_parent_component(rel_path@) ==> r == Err::<
            (String, String),
            PathError,
        >(PathError::ParentReference),
        !spec_is_absolute(rel_path@) && !has_parent_component(rel_path@) ==> (r matches Ok(t)
            && t.0@ == spec_join(scripts_root@, rel_path@) && t.1@ == spec_join(
            data_root@,
            rel_path@,
        )),
{
    match crate::paths::validate_relative_path(rel_path) {
        Ok(_) => {
            let s = crate::paths::join_path(scripts_root, rel_path);
            let d = crate::paths::join_path(data_root, rel_path);
            Ok((s, d))
        },
        Err(e) => Err(e),
    }
}

} // verus!
