//! Migration definitions and the registry that orders them.
use vstd::prelude::*;

verus! {

/// A versioned, reversible unit of schema change.
#[derive(Clone, Debug)]
pub struct Migration {
    /// Strictly positive, unique within a registry; defines the order of application.
    pub version: i32,
    pub name: String,
    pub description: String,
    /// Script run when moving forward through this version.
    pub up: String,
    /// Script run when moving backward past this version.
    pub down: String,
    /// Seconds since the Unix epoch (UTC) at which the migration was applied. Only a
    /// record read back from the database carries it; a definition leaves it `None`.
    pub applied_at: Option<i64>,
}

impl Migration {
    /// A field-by-field copy of this migration.
    pub fn duplicate(&self) -> (r: Migration)
        ensures
            r == *self,
    {
        Migration {
            version: self.version,
            name: self.name.clone(),
            description: self.description.clone(),
            up: self.up.clone(),
            down: self.down.clone(),
            applied_at: self.applied_at,
        }
    }
}

/// Why a registry change or a migration run failed.
#[derive(Clone, Debug, PartialEq, Eq)]
pub enum MigrationError {
    /// The database could not run a query that reads or writes the applied records.
    DatabaseError(String),
    /// The database rejected the change script of the named migration.
    MigrationFailed { version: i32, name: String, message: String },
    /// A migration with this version is already registered.
    DuplicateVersion(i32),
    /// Versions are strictly positive.
    InvalidVersion(i32),
}

impl MigrationError {
    /// A field-by-field copy of this error.
    pub fn duplicate(&self) -> (r: MigrationError)
        ensures
            r == *self,
    {
        match self {
            MigrationError::DatabaseError(msg) => MigrationError::DatabaseError(msg.clone()),
            MigrationError::MigrationFailed { version, name, message } => {
                MigrationError::MigrationFailed {
                    version: *version,
                    name: name.clone(),
                    message: message.clone(),
                }
            },
            MigrationError::DuplicateVersion(v) => MigrationError::DuplicateVersion(*v),
            MigrationError::InvalidVersion(v) => MigrationError::InvalidVersion(*v),
        }
    }
}

pub type MigrationResult<T> = Result<T, MigrationError>;

/// Versions strictly increase along `s`.
pub open spec fn ascending(s: Seq<Migration>) -> bool {
    forall|i: int, j: int| 0 <= i < j < s.len() ==> s[i].version < s[j].version
}

/// Versions strictly decrease along `s`.
pub open spec fn descending(s: Seq<Migration>) -> bool {
    forall|i: int, j: int| 0 <= i < j < s.len() ==> s[i].version > s[j].version
}

/// Some migration of `s` has version `v`.
pub open spec fn has_version(s: Seq<Migration>, v: int) -> bool {
    exists|i: int| 0 <= i < s.len() && s[i].version == v
}

/// The migrations of `s` whose version is above `v`, in the order of `s`.
pub open spec fn newer_than(s: Seq<Migration>, v: int) -> Seq<Migration>
    decreases s.len(),
{
    if s.len() == 0 {
        Seq::empty()
    } else {
        let rest = newer_than(s.drop_last(), v);
        if s.last().version > v {
            rest.push(s.last())
        } else {
            rest
        }
    }
}

/// Membership in `newer_than`: exactly the migrations of `s` with a version above `v`.
pub proof fn lemma_newer_than_members(s: Seq<Migration>, v: int)
    ensures
        forall|m: Migration| #[trigger]
            newer_than(s, v).contains(m) <==> (s.contains(m) && m.version > v),
    decreases s.len(),
{
    if s.len() > 0 {
        let rest = s.drop_last();
        lemma_newer_than_members(rest, v);
        assert forall|m: Migration| #[trigger]
            newer_than(s, v).contains(m) <==> (s.contains(m) && m.version > v) by {
            let f = newer_than(s, v);
            let fr = newer_than(rest, v);
            if f.contains(m) {
                let k = choose|k: int| 0 <= k < f.len() && f[k] == m;
                if k < fr.len() {
                    assert(fr[k] == m);
                    assert(fr.contains(m));
                    let j = choose|j: int| 0 <= j < rest.len() && rest[j] == m;
                    assert(s[j] == m);
                } else {
                    assert(m == s.last());
                    assert(s[s.len() - 1] == m);
                }
            }
            if s.contains(m) && m.version > v {
                let j = choose|j: int| 0 <= j < s.len() && s[j] == m;
                if j < s.len() - 1 {
                    assert(rest[j] == m);
                    assert(fr.contains(m));
                    let k = choose|k: int| 0 <= k < fr.len() && fr[k] == m;
                    assert(f[k] == m);
                } else {
                    assert(f[f.len() - 1] == m);
                }
            }
        }
    }
}

/// Taking the migrations above `v` out of an ascending sequence keeps it ascending.
pub proof fn lemma_newer_than_ascending(s: Seq<Migration>, v: int)
    requires
        ascending(s),
    ensures
        ascending(newer_than(s, v)),
    decreases s.len(),
{
    if s.len() > 0 {
        let rest = s.drop_last();
        lemma_newer_than_ascending(rest, v);
        lemma_newer_than_members(rest, v);
        let fr = newer_than(rest, v);
        if s.last().version > v {
            let f = newer_than(s, v);
            assert forall|i: int, j: int| 0 <= i < j < f.len() implies f[i].version
                < f[j].version by {
                if j == f.len() - 1 {
                    assert(fr.contains(fr[i]));
                    let k = choose|k: int| 0 <= k < rest.len() && rest[k] == fr[i];
                    assert(s[k] == fr[i]);
                } else {
                    assert(f[i] == fr[i] && f[j] == fr[j]);
                }
            }
        }
    }
}

/// The forward work list for a registry and a current version `v` holds exactly the
/// registered migrations newer than `v`, in strictly ascending version order, and is
/// empty exactly when no registered version exceeds `v`.
pub proof fn lemma_pending_forward_exact(registry: &MigrationManager, v: i32)
    requires
        registry.wf(),
    ensures
        ascending(newer_than(registry@, v as int)),
        forall|m: Migration| #[trigger]
            newer_than(registry@, v as int).contains(m) <==> (registry@.contains(m)
                && m.version > v),
        newer_than(registry@, v as int).len() == 0 <==> forall|i: int|
            0 <= i < registry@.len() ==> #[trigger] registry@[i].version <= v,
{
    let s = registry@;
    let f = newer_than(s, v as int);
    lemma_newer_than_ascending(s, v as int);
    lemma_newer_than_members(s, v as int);
    if f.len() == 0 {
        assert forall|i: int| 0 <= i < s.len() implies #[trigger] s[i].version <= v by {
            if s[i].version > v {
                assert(s.contains(s[i]));
                assert(f.contains(s[i]));
            }
        }
    } else {
        assert(f.contains(f[0]));
        let k = choose|k: int| 0 <= k < s.len() && s[k] == f[0];
        assert(s[k].version > v);
    }
}

/// The rollback work list for a registry and a target version `t` holds exactly the
/// registered migrations newer than `t`, in strictly descending version order.
pub proof fn lemma_pending_backward_exact(registry: &MigrationManager, t: i32)
    requires
        registry.wf(),
    ensures
        descending(newer_than(registry@, t as int).reverse()),
        forall|m: Migration| #[trigger]
            newer_than(registry@, t as int).reverse().contains(m) <==> (registry@.contains(m)
                && m.version > t),
{
    let f = newer_than(registry@, t as int);
    let b = f.reverse();
    lemma_pending_forward_exact(registry, t);
    assert forall|i: int, j: int| 0 <= i < j < b.len() implies b[i].version > b[j].version by {
        assert(b[i] == f[f.len() - 1 - i]);
        assert(b[j] == f[f.len() - 1 - j]);
    }
    assert forall|m: Migration| #[trigger] b.contains(m) <==> f.contains(m) by {
        if b.contains(m) {
            let k = choose|k: int| 0 <= k < b.len() && b[k] == m;
            assert(f[f.len() - 1 - k] == m);
        }
        if f.contains(m) {
            let k = choose|k: int| 0 <= k < f.len() && f[k] == m;
            assert(b[f.len() - 1 - k] == m);
        }
    }
}

/// The candidate set of migrations, kept in strictly ascending version order.
pub struct MigrationManager {
    migrations: Vec<Migration>,
}

impl View for MigrationManager {
    type V = Seq<Migration>;

    closed spec fn view(&self) -> Seq<Migration> {
        self.migrations@
    }
}

impl MigrationManager {
    /// Every registered version is positive, and versions strictly ascend (so none repeats).
    pub open spec fn wf(&self) -> bool {
        &&& ascending(self@)
        &&& forall|i: int| 0 <= i < self@.len() ==> #[trigger] self@[i].version > 0
    }

    /// An empty registry.
    pub fn new() -> (r: MigrationManager)
        ensures
            r.wf(),
            r@ == Seq::<Migration>::empty(),
    {
        MigrationManager { migrations: Vec::new() }
    }

    /// The registered migrations, in ascending version order.
    pub fn migrations(&self) -> (r: &Vec<Migration>)
        ensures
            r@ == self@,
    {
        &self.migrations
    }

    /// Registers `migration`. A version that is not positive, or that is already
    /// registered, is rejected and leaves the registry as it was.
    pub fn add_migration(&mut self, migration: Migration) -> (r: MigrationResult<()>)
        requires
            old(self).wf(),
        ensures
            final(self).wf(),
            migration.version <= 0 ==> r == Err::<(), MigrationError>(
                MigrationError::InvalidVersion(migration.version),
            ),
            migration.version > 0 && has_version(old(self)@, migration.version as int) ==> r
                == Err::<(), MigrationError>(MigrationError::DuplicateVersion(migration.version)),
            migration.version > 0 && !has_version(old(self)@, migration.version as int) ==> r
                is Ok,
            r is Ok ==> final(self)@.len() == old(self)@.len() + 1 && forall|m: Migration|
                #[trigger] final(self)@.contains(m) <==> (old(self)@.contains(m) || m
                    == migration),
            r is Err ==> final(self)@ == old(self)@,
    {
        let v = migration.version;
        if v <= 0 {
            return Err(MigrationError::InvalidVersion(v));
        }
        let len = self.migrations.len();
        let mut pos: usize = 0;
        while pos < len && self.migrations[pos].version < v
            invariant
                len == self.migrations@.len(),
                pos <= len,
                forall|k: int| 0 <= k < pos ==> #[trigger] self.migrations@[k].version < v,
            decreases len - pos,
        {
            pos = pos + 1;
        }
        if pos < len && self.migrations[pos].version == v {
            return Err(MigrationError::DuplicateVersion(v));
        }
        proof {
            let s = self.migrations@;
            assert forall|i: int| 0 <= i < s.len() implies #[trigger] s[i].version != v by {
                if i >= pos {
                    assert(s[pos as int].version > v);
                    if i > pos {
                        assert(s[pos as int].version < s[i].version);
                    }
                }
            }
        }
        let ghost before = self.migrations@;
        self.migrations.insert(pos, migration);
        proof {
            let s = self.migrations@;
            before.insert_ensures(pos as int, migration);
            assert(s == before.insert(pos as int, migration));
            assert forall|i: int, j: int| 0 <= i < j < s.len() implies s[i].version
                < s[j].version by {
                if j < pos {
                } else if j == pos {
                } else if i < pos {
                    assert(s[j] == before[j - 1]);
                    if j - 1 > pos {
                        assert(before[pos as int].version < before[j - 1].version);
                    }
                } else if i == pos {
                    assert(s[j] == before[j - 1]);
                    if j - 1 > pos {
                        assert(before[pos as int].version < before[j - 1].version);
                    }
                } else {
                    assert(s[i] == before[i - 1]);
                    assert(s[j] == before[j - 1]);
                }
            }
            assert forall|m: Migration| #[trigger] s.contains(m) <==> (before.contains(m) || m
                == migration) by {
                if s.contains(m) {
                    let k = choose|k: int| 0 <= k < s.len() && s[k] == m;
                    if k < pos {
                        assert(before[k] == m);
                    } else if k > pos {
                        assert(before[k - 1] == m);
                    }
                }
                if before.contains(m) {
                    let k = choose|k: int| 0 <= k < before.len() && before[k] == m;
                    if k < pos {
                        assert(s[k] == m);
                    } else {
                        assert(s[k + 1] == m);
                    }
                }
                if m == migration {
                    assert(s[pos as int] == m);
                }
            }
        }
        Ok(())
    }

    /// The migrations newer than `current_version`, ascending: the forward work list.
    pub fn pending_forward(&self, current_version: i32) -> (r: Vec<Migration>)
        ensures
            r@ == newer_than(self@, current_version as int),
    {
        let mut r: Vec<Migration> = Vec::new();
        let mut i: usize = 0;
        while i < self.migrations.len()
            invariant
                i <= self.migrations@.len(),
                r@ == newer_than(self.migrations@.take(i as int), current_version as int),
            decreases self.migrations@.len() - i,
        {
            proof {
                assert(self.migrations@.take(i + 1).drop_last() == self.migrations@.take(
                    i as int,
                ));
            }
            if self.migrations[i].version > current_version {
                r.push(self.migrations[i].duplicate());
            }
            i = i + 1;
        }
        proof {
            assert(self.migrations@.take(i as int) == self.migrations@);
        }
        r
    }

    /// The migrations newer than `target_version`, descending: the rollback work list.
    pub fn pending_backward(&self, target_version: i32) -> (r: Vec<Migration>)
        ensures
            r@ == newer_than(self@, target_version as int).reverse(),
    {
        let forward = self.pending_forward(target_version);
        let n = forward.len();
        let mut r: Vec<Migration> = Vec::new();
        let mut j: usize = n;
        while j > 0
            invariant
                j <= n == forward@.len(),
                r@.len() == n - j,
                forall|k: int| 0 <= k < r@.len() ==> #[trigger] r@[k] == forward@[n - 1 - k],
            decreases j,
        {
            r.push(forward[j - 1].duplicate());
            j = j - 1;
        }
        proof {
            assert(r@ == forward@.reverse());
        }
        r
    }
}

} // verus!
