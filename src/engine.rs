//! The migration engine as a state machine: a run decides the next database action,
//! the caller performs it and reports how it went, and the run moves on.
use vstd::prelude::*;
use crate::migrations::{
    Migration, MigrationError, MigrationManager, MigrationResult, ascending, descending,
    newer_than,
};

verus! {

/// The current schema version of a record table holding the versions `rows`: the
/// largest of them, or 0 when there is none.
pub open spec fn max_version(rows: Seq<i32>) -> int
    decreases rows.len(),
{
    if rows.len() == 0 {
        0
    } else {
        let m = max_version(rows.drop_last());
        if rows.last() > m {
            rows.last() as int
        } else {
            m
        }
    }
}

/// The versions of `s`, in order.
pub open spec fn versions_of(s: Seq<Migration>) -> Seq<i32> {
    s.map_values(|m: Migration| m.version)
}

/// `rows` with every occurrence of `v` taken out.
pub open spec fn without(rows: Seq<i32>, v: i32) -> Seq<i32>
    decreases rows.len(),
{
    if rows.len() == 0 {
        Seq::empty()
    } else {
        let rest = without(rows.drop_last(), v);
        if rows.last() == v {
            rest
        } else {
            rest.push(rows.last())
        }
    }
}

/// The record table `rows` after the records of the migrations `applied` were written.
pub open spec fn after_apply(rows: Seq<i32>, applied: Seq<Migration>) -> Seq<i32> {
    rows + versions_of(applied)
}

/// The record table `rows` after the records of the migrations `undone` were deleted,
/// in the order of `undone`.
pub open spec fn after_rollback(rows: Seq<i32>, undone: Seq<Migration>) -> Seq<i32>
    decreases undone.len(),
{
    if undone.len() == 0 {
        rows
    } else {
        without(after_rollback(rows, undone.drop_last()), undone.last().version)
    }
}

/// The migrations of `s` whose version is at most `v`, in the order of `s`.
pub open spec fn not_newer_than(s: Seq<Migration>, v: int) -> Seq<Migration>
    decreases s.len(),
{
    if s.len() == 0 {
        Seq::empty()
    } else {
        let rest = not_newer_than(s.drop_last(), v);
        if s.last().version <= v {
            rest.push(s.last())
        } else {
            rest
        }
    }
}

/// The rollback work list towards `target` from the current version `current`: the
/// registered migrations with `target < version <= current`, newest first.
pub open spec fn rollback_work(registry: Seq<Migration>, target: int, current: int) -> Seq<
    Migration,
> {
    not_newer_than(newer_than(registry, target).reverse(), current)
}

/// `max_version(rows)` is never negative, bounds every version of `rows`, and when
/// positive is one of them.
pub proof fn lemma_max_version_bounds(rows: Seq<i32>)
    ensures
        max_version(rows) >= 0,
        forall|i: int| 0 <= i < rows.len() ==> #[trigger] rows[i] <= max_version(rows),
        max_version(rows) == 0 || exists|k: int|
            0 <= k < rows.len() && rows[k] as int == max_version(rows),
    decreases rows.len(),
{
    if rows.len() > 0 {
        let rest = rows.drop_last();
        lemma_max_version_bounds(rest);
        assert forall|i: int| 0 <= i < rows.len() implies #[trigger] rows[i] <= max_version(
            rows,
        ) by {
            if i < rows.len() - 1 {
                assert(rows[i] == rest[i]);
            }
        }
        if max_version(rows) != 0 {
            if rows.last() > max_version(rest) {
                assert(rows[rows.len() - 1] as int == max_version(rows));
            } else {
                let k = choose|k: int| 0 <= k < rest.len() && rest[k] as int == max_version(rest);
                assert(rows[k] == rest[k]);
            }
        }
    }
}

/// Whatever is left after taking out `v` was in `rows`.
proof fn lemma_without_subset(rows: Seq<i32>, v: i32)
    ensures
        forall|x: i32| #[trigger] without(rows, v).contains(x) ==> rows.contains(x),
    decreases rows.len(),
{
    if rows.len() > 0 {
        let rest = rows.drop_last();
        lemma_without_subset(rest, v);
        assert forall|x: i32| #[trigger] without(rows, v).contains(x) implies rows.contains(x) by {
            let w = without(rows, v);
            let wr = without(rest, v);
            let k = choose|k: int| 0 <= k < w.len() && w[k] == x;
            if k < wr.len() {
                assert(wr[k] == x);
                assert(wr.contains(x));
                let j = choose|j: int| 0 <= j < rest.len() && rest[j] == x;
                assert(rows[j] == x);
            } else {
                assert(rows[rows.len() - 1] == x);
            }
        }
    }
}

/// Writing applied records never lowers the current version, which is never negative.
pub proof fn lemma_apply_never_lowers(rows: Seq<i32>, applied: Seq<Migration>)
    ensures
        0 <= max_version(rows) <= max_version(after_apply(rows, applied)),
{
    let after = after_apply(rows, applied);
    lemma_max_version_bounds(rows);
    lemma_max_version_bounds(after);
    if max_version(rows) != 0 {
        let k = choose|k: int| 0 <= k < rows.len() && rows[k] as int == max_version(rows);
        assert(after[k] == rows[k]);
    }
}

/// Deleting applied records never raises the current version, which is never negative.
pub proof fn lemma_rollback_never_raises(rows: Seq<i32>, undone: Seq<Migration>)
    ensures
        0 <= max_version(after_rollback(rows, undone)) <= max_version(rows),
    decreases undone.len(),
{
    lemma_max_version_bounds(rows);
    if undone.len() > 0 {
        let before = after_rollback(rows, undone.drop_last());
        let after = after_rollback(rows, undone);
        lemma_rollback_never_raises(rows, undone.drop_last());
        lemma_without_subset(before, undone.last().version);
        lemma_max_version_bounds(before);
        lemma_max_version_bounds(after);
        if max_version(after) != 0 {
            let k = choose|k: int| 0 <= k < after.len() && after[k] as int == max_version(after);
            assert(after.contains(after[k]));
            assert(before.contains(after[k]));
            let j = choose|j: int| 0 <= j < before.len() && before[j] == after[k];
            assert(before[j] <= max_version(before));
        }
    }
}

/// Running pending migrations twice in a row finds nothing to do the second time: once
/// the records of the whole forward work list are written, no registered migration is
/// newer than the current version.
pub proof fn lemma_rerun_finds_nothing(registry: &MigrationManager, rows: Seq<i32>)
    requires
        registry.wf(),
    ensures
        newer_than(
            registry@,
            max_version(after_apply(rows, newer_than(registry@, max_version(rows)))),
        ).len() == 0,
{
    let reg = registry@;
    let c = max_version(rows);
    let work = newer_than(reg, c);
    let after = after_apply(rows, work);
    let c2 = max_version(after);
    lemma_apply_never_lowers(rows, work);
    lemma_max_version_bounds(after);
    crate::migrations::lemma_newer_than_members(reg, c);
    crate::migrations::lemma_newer_than_members(reg, c2);
    assert forall|i: int| 0 <= i < reg.len() implies #[trigger] reg[i].version <= c2 by {
        if reg[i].version > c {
            assert(reg.contains(reg[i]));
            assert(work.contains(reg[i]));
            let j = choose|j: int| 0 <= j < work.len() && work[j] == reg[i];
            assert(after[rows.len() + j] == work[j].version);
        }
    }
    let f = newer_than(reg, c2);
    if f.len() > 0 {
        assert(f.contains(f[0]));
        let k = choose|k: int| 0 <= k < reg.len() && reg[k] == f[0];
        assert(reg[k].version <= c2);
    }
}

/// A forward run over an ascending work list newer than the current version, stopped
/// after its first `k` migrations (by a failure or at the end), leaves the current
/// version at the last of those: at its value before the run when `k` is 0.
pub proof fn lemma_stopped_run_version(rows: Seq<i32>, work: Seq<Migration>, k: int)
    requires
        ascending(work),
        forall|i: int| 0 <= i < work.len() ==> #[trigger] work[i].version > max_version(rows),
        0 <= k <= work.len(),
    ensures
        max_version(after_apply(rows, work.take(k))) == if k == 0 {
            max_version(rows)
        } else {
            work[k - 1].version as int
        },
    decreases k,
{
    if k == 0 {
        assert(work.take(0) == Seq::<Migration>::empty());
        assert(after_apply(rows, work.take(0)) == rows);
    } else {
        lemma_stopped_run_version(rows, work, k - 1);
        let prev = after_apply(rows, work.take(k - 1));
        let cur = after_apply(rows, work.take(k));
        assert(work.take(k) == work.take(k - 1).push(work[k - 1]));
        assert(versions_of(work.take(k)) == versions_of(work.take(k - 1)).push(
            work[k - 1].version,
        ));
        assert(cur == prev.push(work[k - 1].version));
        assert(cur.drop_last() == prev);
        if k > 1 {
            assert(work[k - 2].version < work[k - 1].version);
        }
    }
}

/// Ordering under failure: in a forward run whose work list ascends and lies above the
/// starting version (as `run_pending_migrations` builds it), the current version is
/// always that of the last migration whose record was written, or the starting version
/// when there is none. A run that failed stays at the migration that failed, so the
/// version stays below it, and none after it is started.
pub proof fn lemma_forward_run_version(run: &MigrationRun)
    requires
        run.wf(),
        run.spec_direction() == Direction::Forward,
        ascending(run.work()),
        forall|i: int|
            0 <= i < run.work().len() ==> #[trigger] run.work()[i].version > max_version(
                run.initial(),
            ),
    ensures
        max_version(run.applied()) == if run.position() == 0 {
            max_version(run.initial())
        } else {
            run.work()[run.position() - 1].version as int
        },
{
    lemma_stopped_run_version(run.initial(), run.work(), run.position());
}

/// Membership in `not_newer_than`: exactly the migrations of `s` with a version at most `v`.
pub proof fn lemma_not_newer_than_members(s: Seq<Migration>, v: int)
    ensures
        forall|m: Migration| #[trigger]
            not_newer_than(s, v).contains(m) <==> (s.contains(m) && m.version <= v),
    decreases s.len(),
{
    if s.len() > 0 {
        let rest = s.drop_last();
        lemma_not_newer_than_members(rest, v);
        assert forall|m: Migration| #[trigger]
            not_newer_than(s, v).contains(m) <==> (s.contains(m) && m.version <= v) by {
            let f = not_newer_than(s, v);
            let fr = not_newer_than(rest, v);
            if f.contains(m) {
                let k = choose|k: int| 0 <= k < f.len() && f[k] == m;
                if k < fr.len() {
                    assert(fr[k] == m);
                    assert(fr.contains(m));
                    let j = choose|j: int| 0 <= j < rest.len() && rest[j] == m;
                    assert(s[j] == m);
                } else {
                    assert(s[s.len() - 1] == m);
                }
            }
            if s.contains(m) && m.version <= v {
                let j = choose|j: int| 0 <= j < s.len() && s[j] == m;
                if j < s.len() - 1 {
                    assert(rest[j] == m);
                    assert(fr.contains(m));
                    let k = choose|k: int| 0 <= k < fr.len() && fr[k] == m;
                    assert(f[k] == m);
                } else {
                    assert(f[f.len() - 1] == m);
                }
            }
        }
    }
}

/// Keeping the migrations at most `v` of a descending sequence keeps it descending.
pub proof fn lemma_not_newer_than_descending(s: Seq<Migration>, v: int)
    requires
        descending(s),
    ensures
        descending(not_newer_than(s, v)),
    decreases s.len(),
{
    if s.len() > 0 {
        let rest = s.drop_last();
        lemma_not_newer_than_descending(rest, v);
        lemma_not_newer_than_members(rest, v);
        let fr = not_newer_than(rest, v);
        if s.last().version <= v {
            let f = not_newer_than(s, v);
            assert forall|i: int, j: int| 0 <= i < j < f.len() implies f[i].version
                > f[j].version by {
                if j == f.len() - 1 {
                    assert(fr.contains(fr[i]));
                    let k = choose|k: int| 0 <= k < rest.len() && rest[k] == fr[i];
                    assert(s[k] == fr[i]);
                } else {
                    assert(f[i] == fr[i] && f[j] == fr[j]);
                }
            }
        }
    }
}

/// Which way a run moves through the versions.
#[derive(Clone, Copy, Debug, PartialEq, Eq, Structural)]
pub enum Direction {
    /// Apply "up" scripts in ascending version order.
    Forward,
    /// Apply "down" scripts in descending version order.
    Backward,
}

/// Where a run stands within the migration it is working on.
#[derive(Clone, Copy, Debug, PartialEq, Eq, Structural)]
pub enum Phase {
    /// The change script has still to run.
    Script,
    /// The script ran; the applied record has still to be written or deleted.
    Record,
}

/// How the database action that a run asked for went.
#[derive(Clone, Debug, PartialEq, Eq)]
pub enum StepOutcome {
    Succeeded,
    /// The database reported this error.
    Failed(String),
}

/// What a run asks of its caller next.
#[derive(Debug, PartialEq, Eq)]
pub enum RunAction {
    /// Emit a metric tagged with `version` and `name`, then run `script` verbatim.
    RunScript { direction: Direction, version: i32, name: String, script: String },
    /// Write the applied record of a migration, stamped with the current time.
    WriteRecord { version: i32, name: String, description: String },
    /// Delete the applied record with this version.
    DeleteRecord { version: i32 },
    /// The run is over, with this result.
    Finished(MigrationResult<()>),
}

/// One invocation of "run pending" or "rollback": a fixed, ordered work list, the
/// position reached in it, and the applied records as the run has left them.
pub struct MigrationRun {
    direction: Direction,
    work: Vec<Migration>,
    next: usize,
    phase: Phase,
    failure: Option<MigrationError>,
    applied: Vec<i32>,
    initial: Ghost<Seq<i32>>,
}

impl MigrationRun {
    pub closed spec fn spec_direction(&self) -> Direction {
        self.direction
    }

    /// The work list, in the order in which it is processed.
    pub closed spec fn work(&self) -> Seq<Migration> {
        self.work@
    }

    /// How many migrations of the work list are done.
    pub closed spec fn position(&self) -> int {
        self.next as int
    }

    pub closed spec fn spec_phase(&self) -> Phase {
        self.phase
    }

    /// The error that stopped the run, if one did.
    pub closed spec fn failure(&self) -> Option<MigrationError> {
        self.failure
    }

    /// The versions in the applied-record table as this run has left it.
    pub closed spec fn applied(&self) -> Seq<i32> {
        self.applied@
    }

    /// The versions in the applied-record table when the run began.
    pub closed spec fn initial(&self) -> Seq<i32> {
        self.initial@
    }

    /// The migration the run is working on.
    pub open spec fn current_migration(&self) -> Migration {
        self.work()[self.position()]
    }

    /// The run is over: it went through the whole work list or it failed.
    pub open spec fn spec_finished(&self) -> bool {
        self.failure() is Some || self.position() == self.work().len()
    }

    /// The applied records are the initial ones with those of the finished migrations
    /// written (forward) or deleted (backward); a migration whose record has not been
    /// touched counts as not finished.
    pub open spec fn wf(&self) -> bool {
        &&& 0 <= self.position() <= self.work().len()
        &&& self.position() == self.work().len() ==> self.spec_phase() == Phase::Script
            && self.failure() is None
        &&& self.spec_direction() == Direction::Forward ==> self.applied() == after_apply(
            self.initial(),
            self.work().take(self.position()),
        )
        &&& self.spec_direction() == Direction::Backward ==> self.applied() == after_rollback(
            self.initial(),
            self.work().take(self.position()),
        )
    }

    fn start(direction: Direction, work: Vec<Migration>, applied: Vec<i32>) -> (r: MigrationRun)
        ensures
            r.wf(),
            r.spec_direction() == direction,
            r.work() == work@,
            r.position() == 0,
            r.spec_phase() == Phase::Script,
            r.failure() is None,
            r.applied() == applied@,
            r.initial() == applied@,
    {
        let ghost rows = applied@;
        let r = MigrationRun {
            direction,
            work,
            next: 0,
            phase: Phase::Script,
            failure: None,
            applied,
            initial: Ghost(rows),
        };
        proof {
            assert(r.work@.take(0) == Seq::<Migration>::empty());
            assert(rows + versions_of(Seq::<Migration>::empty()) == rows);
        }
        r
    }

    pub fn direction(&self) -> (r: Direction)
        ensures
            r == self.spec_direction(),
    {
        self.direction
    }

    pub fn phase(&self) -> (r: Phase)
        ensures
            r == self.spec_phase(),
    {
        self.phase
    }

    /// The work list, in processing order.
    pub fn work_list(&self) -> (r: &Vec<Migration>)
        ensures
            r@ == self.work(),
    {
        &self.work
    }

    /// How many migrations of the work list are done.
    pub fn completed(&self) -> (r: usize)
        ensures
            r == self.position(),
    {
        self.next
    }

    /// The versions in the applied-record table as this run has left it.
    pub fn applied_versions(&self) -> (r: &Vec<i32>)
        ensures
            r@ == self.applied(),
    {
        &self.applied
    }

    /// The current schema version as this run has left it.
    pub fn current_version(&self) -> (r: i32)
        ensures
            r == max_version(self.applied()),
    {
        MigrationManager::get_current_version(&self.applied)
    }

    /// Whether the run is over.
    pub fn is_finished(&self) -> (r: bool)
        ensures
            r == self.spec_finished(),
    {
        self.failure.is_some() || self.next == self.work.len()
    }

    /// The action the caller performs next. A failed run only ever reports its error,
    /// so no later script runs.
    pub fn next_action(&self) -> (r: RunAction)
        requires
            self.wf(),
        ensures
            self.failure() is Some ==> r == RunAction::Finished(
                Err(self.failure()->Some_0),
            ),
            self.failure() is None && self.position() == self.work().len() ==> r
                == RunAction::Finished(Ok(())),
            !self.spec_finished() && self.spec_phase() == Phase::Script ==> r == (
            RunAction::RunScript {
                direction: self.spec_direction(),
                version: self.current_migration().version,
                name: self.current_migration().name,
                script: if self.spec_direction() == Direction::Forward {
                    self.current_migration().up
                } else {
                    self.current_migration().down
                },
            }),
            !self.spec_finished() && self.spec_phase() == Phase::Record
                && self.spec_direction() == Direction::Forward ==> r == (RunAction::WriteRecord {
                version: self.current_migration().version,
                name: self.current_migration().name,
                description: self.current_migration().description,
            }),
            !self.spec_finished() && self.spec_phase() == Phase::Record
                && self.spec_direction() == Direction::Backward ==> r == (
            RunAction::DeleteRecord { version: self.current_migration().version }),
    {
        if let Some(e) = &self.failure {
            return RunAction::Finished(Err(e.duplicate()));
        }
        if self.next == self.work.len() {
            return RunAction::Finished(Ok(()));
        }
        let m = &self.work[self.next];
        match self.phase {
            Phase::Script => {
                let script = match self.direction {
                    Direction::Forward => m.up.clone(),
                    Direction::Backward => m.down.clone(),
                };
                RunAction::RunScript {
                    direction: self.direction,
                    version: m.version,
                    name: m.name.clone(),
                    script,
                }
            },
            Phase::Record => match self.direction {
                Direction::Forward => RunAction::WriteRecord {
                    version: m.version,
                    name: m.name.clone(),
                    description: m.description.clone(),
                },
                Direction::Backward => RunAction::DeleteRecord { version: m.version },
            },
        }
    }

    /// Takes in how the action of `next_action` went. A script failure stops the run
    /// with `MigrationFailed`, a record failure with `DatabaseError`; either way the
    /// applied records stay as they were, and a finished run ignores any outcome.
    pub fn record_outcome(&mut self, outcome: StepOutcome)
        requires
            old(self).wf(),
        ensures
            final(self).wf(),
            final(self).spec_direction() == old(self).spec_direction(),
            final(self).work() == old(self).work(),
            final(self).initial() == old(self).initial(),
            old(self).spec_finished() ==> *final(self) == *old(self),
            !old(self).spec_finished() && old(self).spec_phase() == Phase::Script ==> {
                &&& final(self).position() == old(self).position()
                &&& final(self).applied() == old(self).applied()
                &&& outcome is Succeeded ==> final(self).spec_phase() == Phase::Record
                    && final(self).failure() is None
                &&& outcome is Failed ==> final(self).spec_phase() == Phase::Script
                    && final(self).failure() == Some(
                    MigrationError::MigrationFailed {
                        version: old(self).current_migration().version,
                        name: old(self).current_migration().name,
                        message: outcome->Failed_0,
                    },
                )
            },
            !old(self).spec_finished() && old(self).spec_phase() == Phase::Record ==> {
                &&& outcome is Succeeded ==> {
                    &&& final(self).position() == old(self).position() + 1
                    &&& final(self).spec_phase() == Phase::Script
                    &&& final(self).failure() is None
                    &&& old(self).spec_direction() == Direction::Forward ==> final(self).applied()
                        == old(self).applied().push(old(self).current_migration().version)
                    &&& old(self).spec_direction() == Direction::Backward
                        ==> final(self).applied() == without(
                        old(self).applied(),
                        old(self).current_migration().version,
                    )
                }
                &&& outcome is Failed ==> {
                    &&& final(self).position() == old(self).position()
                    &&& final(self).spec_phase() == Phase::Record
                    &&& final(self).applied() == old(self).applied()
                    &&& final(self).failure() == Some(
                        MigrationError::DatabaseError(outcome->Failed_0),
                    )
                }
            },
    {
        if self.failure.is_some() || self.next == self.work.len() {
            return;
        }
        let version = self.work[self.next].version;
        match (self.phase, outcome) {
            (Phase::Script, StepOutcome::Succeeded) => {
                self.phase = Phase::Record;
            },
            (Phase::Script, StepOutcome::Failed(message)) => {
                self.failure = Some(
                    MigrationError::MigrationFailed {
                        version,
                        name: self.work[self.next].name.clone(),
                        message,
                    },
                );
            },
            (Phase::Record, StepOutcome::Succeeded) => {
                let ghost k = self.next as int;
                let ghost w = self.work@;
                proof {
                    assert(w.take(k + 1).drop_last() == w.take(k));
                    assert(w.take(k + 1).last() == w[k]);
                }
                match self.direction {
                    Direction::Forward => {
                        self.applied.push(version);
                        proof {
                            assert(versions_of(w.take(k + 1)) == versions_of(w.take(k)).push(
                                w[k].version,
                            ));
                            assert(after_apply(self.initial@, w.take(k + 1)) == after_apply(
                                self.initial@,
                                w.take(k),
                            ).push(w[k].version));
                        }
                    },
                    Direction::Backward => {
                        self.applied = remove_version(&self.applied, version);
                    },
                }
                self.next = self.next + 1;
                self.phase = Phase::Script;
            },
            (Phase::Record, StepOutcome::Failed(message)) => {
                self.failure = Some(MigrationError::DatabaseError(message));
            },
        }
    }
}

/// `rows` with every occurrence of `v` taken out, the others kept in order.
fn remove_version(rows: &Vec<i32>, v: i32) -> (r: Vec<i32>)
    ensures
        r@ == without(rows@, v),
{
    let mut r: Vec<i32> = Vec::new();
    let mut i: usize = 0;
    while i < rows.len()
        invariant
            i <= rows@.len(),
            r@ == without(rows@.take(i as int), v),
        decreases rows@.len() - i,
    {
        proof {
            assert(rows@.take(i + 1).drop_last() == rows@.take(i as int));
        }
        if rows[i] != v {
            r.push(rows[i]);
        }
        i = i + 1;
    }
    proof {
        assert(rows@.take(i as int) == rows@);
    }
    r
}

impl MigrationManager {
    /// The current schema version of a record table holding the versions
    /// `applied_versions`: the largest, or 0 when the table is empty.
    pub fn get_current_version(applied_versions: &Vec<i32>) -> (r: i32)
        ensures
            r == max_version(applied_versions@),
    {
        let mut best: i32 = 0;
        let mut i: usize = 0;
        while i < applied_versions.len()
            invariant
                i <= applied_versions@.len(),
                best == max_version(applied_versions@.take(i as int)),
            decreases applied_versions@.len() - i,
        {
            proof {
                assert(applied_versions@.take(i + 1).drop_last() == applied_versions@.take(
                    i as int,
                ));
            }
            if applied_versions[i] > best {
                best = applied_versions[i];
            }
            i = i + 1;
        }
        proof {
            assert(applied_versions@.take(i as int) == applied_versions@);
        }
        best
    }

    /// Starts a forward run against a record table holding `applied_versions`: every
    /// registered migration newer than the current version, ascending.
    pub fn run_pending_migrations(&self, applied_versions: Vec<i32>) -> (r: MigrationRun)
        ensures
            r.wf(),
            r.spec_direction() == Direction::Forward,
            r.work() == newer_than(self@, max_version(applied_versions@)),
            self.wf() ==> ascending(r.work()),
            forall|i: int|
                0 <= i < r.work().len() ==> #[trigger] r.work()[i].version > max_version(
                    applied_versions@,
                ),
            r.position() == 0,
            r.spec_phase() == Phase::Script,
            r.failure() is None,
            r.initial() == applied_versions@,
    {
        let current = MigrationManager::get_current_version(&applied_versions);
        let work = self.pending_forward(current);
        proof {
            crate::migrations::lemma_newer_than_members(self@, current as int);
            if self.wf() {
                crate::migrations::lemma_newer_than_ascending(self@, current as int);
            }
            assert forall|i: int| 0 <= i < work@.len() implies #[trigger] work@[i].version
                > current by {
                assert(work@.contains(work@[i]));
            }
        }
        MigrationRun::start(Direction::Forward, work, applied_versions)
    }

    /// Starts a rollback towards `target_version` against a record table holding
    /// `applied_versions`: every registered migration above the target and not above
    /// the current version, descending.
    pub fn rollback(&self, applied_versions: Vec<i32>, target_version: i32) -> (r: MigrationRun)
        ensures
            r.wf(),
            r.spec_direction() == Direction::Backward,
            r.work() == rollback_work(
                self@,
                target_version as int,
                max_version(applied_versions@),
            ),
            self.wf() ==> descending(r.work()),
            forall|i: int|
                0 <= i < r.work().len() ==> target_version < #[trigger] r.work()[i].version
                    <= max_version(applied_versions@),
            r.position() == 0,
            r.spec_phase() == Phase::Script,
            r.failure() is None,
            r.initial() == applied_versions@,
    {
        let current = MigrationManager::get_current_version(&applied_versions);
        let candidates = self.pending_backward(target_version);
        let mut work: Vec<Migration> = Vec::new();
        let mut i: usize = 0;
        while i < candidates.len()
            invariant
                i <= candidates@.len(),
                work@ == not_newer_than(candidates@.take(i as int), current as int),
            decreases candidates@.len() - i,
        {
            proof {
                assert(candidates@.take(i + 1).drop_last() == candidates@.take(i as int));
            }
            if candidates[i].version <= current {
                work.push(candidates[i].duplicate());
            }
            i = i + 1;
        }
        proof {
            assert(candidates@.take(i as int) == candidates@);
            lemma_not_newer_than_members(candidates@, current as int);
            if self.wf() {
                crate::migrations::lemma_pending_backward_exact(self, target_version);
                lemma_not_newer_than_descending(candidates@, current as int);
            }
            crate::migrations::lemma_newer_than_members(self@, target_version as int);
            let f = newer_than(self@, target_version as int);
            assert forall|i: int| 0 <= i < work@.len() implies target_version
                < #[trigger] work@[i].version <= current by {
                assert(work@.contains(work@[i]));
                let k = choose|k: int| 0 <= k < candidates@.len() && candidates@[k] == work@[i];
                assert(candidates@[k] == f[f.len() - 1 - k]);
                assert(f.contains(f[f.len() - 1 - k]));
            }
        }
        MigrationRun::start(Direction::Backward, work, applied_versions)
    }
}

} // verus!
