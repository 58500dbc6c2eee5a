use vstd::prelude::*;
use std::collections::HashMap;
use vstd::std_specs::iter::IteratorSpec;
use crate::text::{chars_to_string, int_decimal, push_i64_decimal, push_str_chars};

verus! {

broadcast use vstd::std_specs::hash::group_hash_axioms;

/// What can go wrong while migrating.
#[derive(Debug)]
pub enum MigrationError {
    /// The database refused something; its message.
    SqliteError(String),
    /// A migration with this version was added before.
    VersionAlreadyExists(i64),
    /// The migration with this version could not be applied or rolled back, and why.
    MigrationFailed(i64, String),
}

/// The message of a migration error.
pub open spec fn migration_error_text(e: MigrationError) -> Seq<char> {
    match e {
        MigrationError::SqliteError(m) => "SQLite error: "@ + m@,
        MigrationError::VersionAlreadyExists(v) => "Migration version "@ + int_decimal(v as int) + " already exists"@,
        MigrationError::MigrationFailed(v, m) => "Failed to apply migration "@ + int_decimal(v as int) + ": "@ + m@,
    }
}

impl MigrationError {
    /// The message of the error.
    pub fn to_string(&self) -> (r: String)
        ensures
            r@ == migration_error_text(*self),
    {
        let mut m: Vec<char> = Vec::new();
        match self {
            MigrationError::SqliteError(s) => {
                push_str_chars(&mut m, "SQLite error: ");
                push_str_chars(&mut m, s.as_str());
            },
            MigrationError::VersionAlreadyExists(v) => {
                push_str_chars(&mut m, "Migration version ");
                push_i64_decimal(&mut m, *v);
                push_str_chars(&mut m, " already exists");
            },
            MigrationError::MigrationFailed(v, s) => {
                push_str_chars(&mut m, "Failed to apply migration ");
                push_i64_decimal(&mut m, *v);
                push_str_chars(&mut m, ": ");
                push_str_chars(&mut m, s.as_str());
            },
        }
        chars_to_string(&m)
    }
}

/// A migration: its version (unique among those of a migrator), its name, the SQL that
/// applies it and, optionally, the SQL that rolls it back.
#[derive(Debug)]
pub struct Migration {
    pub version: i64,
    pub name: String,
    pub up: String,
    pub down: Option<String>,
}

impl Migration {
    /// A migration with these parts.
    pub fn new(version: i64, name: &str, up: &str, down: Option<&str>) -> (r: Self)
        ensures
            r.version == version,
            r.name@ == name@,
            r.up@ == up@,
            match down {
                Some(d) => r.down matches Some(x) && x@ == d@,
                None => r.down is None,
            },
    {
        let down = match down {
            Some(d) => Some(d.to_owned()),
            None => None,
        };
        Migration { version, name: name.to_owned(), up: up.to_owned(), down }
    }
}

/// Migrations by version.
pub struct Migrator {
    migrations: HashMap<i64, Migration>,
}

/// Whether `s` is in strictly increasing order.
pub open spec fn strictly_increasing(s: Seq<i64>) -> bool {
    forall|i: int, j: int| 0 <= i < j < s.len() ==> s[i] < s[j]
}

/// Whether `s` never decreases.
pub open spec fn increasing(s: Seq<i64>) -> bool {
    forall|i: int, j: int| 0 <= i <= j < s.len() ==> s[i] <= s[j]
}

/// Whether `v` holds `x`.
pub fn contains_i64(v: &[i64], x: i64) -> (r: bool)
    ensures
        r == v@.contains(x),
{
    let n = v.len();
    for i in 0..n
        invariant
            n == v@.len(),
            forall|k: int| 0 <= k < i ==> v@[k] != x,
    {
        if v[i] == x {
            return true;
        }
    }
    false
}

/// Inserts `x` into increasing `v`, keeping it increasing.
fn insert_sorted(v: &mut Vec<i64>, x: i64)
    requires
        strictly_increasing(old(v)@),
        !old(v)@.contains(x),
    ensures
        strictly_increasing(final(v)@),
        forall|y: i64| final(v)@.contains(y) <==> (old(v)@.contains(y) || y == x),
{
    let n = v.len();
    let mut i: usize = 0;
    while i < n && v[i] < x
        invariant
            i <= n == v@.len(),
            forall|k: int| 0 <= k < i ==> v@[k] < x,
        decreases n - i,
    {
        i = i + 1;
    }
    let ghost before = v@;
    v.insert(i, x);
    proof {
        assert(v@ == before.take(i as int).push(x) + before.skip(i as int));
        assert forall|y: i64| v@.contains(y) <==> (before.contains(y) || y == x) by {
            if before.contains(y) {
                let k = choose|k: int| 0 <= k < before.len() && before[k] == y;
                if k < i {
                    assert(v@[k] == y);
                } else {
                    assert(v@[k + 1] == y);
                }
            }
            if y == x {
                assert(v@[i as int] == x);
            }
            if v@.contains(y) {
                let k = choose|k: int| 0 <= k < v@.len() && v@[k] == y;
                if k < i {
                    assert(before[k] == y);
                } else if k > i {
                    assert(before[k - 1] == y);
                }
            }
        }
        assert forall|a: int, b: int| 0 <= a < b < v@.len() implies v@[a] < v@[b] by {
            if b < i {
            } else if b == i {
            } else if a < i {
                assert(before[b - 1] >= x) by {
                    if i < n {
                        assert(before[i as int] != x);
                        assert(!(before[i as int] < x));
                    }
                }
            } else if a == i {
                assert(before[b - 1] >= before[i as int]);
                assert(before[i as int] != x);
            } else {
            }
        }
    }
}

/// What a rollback comes to.
#[derive(Debug)]
pub enum RollbackPlan {
    /// Nothing to roll back.
    Nothing,
    /// Run this `down` script for this version, then forget the version.
    Run(i64, String),
    /// The last applied migration cannot be rolled back.
    Refuse(MigrationError),
}

impl Migrator {
    /// The migrations, by version.
    pub closed spec fn migrations(&self) -> Map<i64, Migration> {
        self.migrations@
    }

    /// Each migration is filed under its own version.
    #[verifier::type_invariant]
    spec fn filed_by_version(&self) -> bool {
        forall|k: i64| #[trigger] self.migrations@.contains_key(k) ==> self.migrations@[k].version == k
    }

    /// A migrator with no migrations.
    pub fn new() -> (r: Self)
        ensures
            r.migrations() == Map::<i64, Migration>::empty(),
    {
        Migrator { migrations: HashMap::new() }
    }

    /// Adds a migration; a version that is there already is refused. On success the
    /// migrator is handed back, for further additions.
    pub fn add_migration(&mut self, migration: Migration) -> (r: Result<&mut Self, MigrationError>)
        ensures
            match r {
                Ok(m) => !old(self).migrations().contains_key(migration.version) && m.migrations()
                    == old(self).migrations().insert(migration.version, migration) && *final(m) == *final(self),
                Err(e) => old(self).migrations().contains_key(migration.version) && e
                    == MigrationError::VersionAlreadyExists(migration.version) && final(self).migrations()
                    == old(self).migrations(),
            },
    {
        proof {
            use_type_invariant(&*self);
        }
        let v = migration.version;
        if self.migrations.contains_key(&v) {
            return Err(MigrationError::VersionAlreadyExists(v));
        }
        let mut map: HashMap<i64, Migration> = HashMap::new();
        std::mem::swap(&mut map, &mut self.migrations);
        map.insert(v, migration);
        self.migrations = map;
        Ok(self)
    }

    /// The migration with this version, if any.
    pub fn get(&self, version: i64) -> (r: Option<&Migration>)
        ensures
            match r {
                Some(m) => self.migrations().contains_key(version) && *m == self.migrations()[version],
                None => !self.migrations().contains_key(version),
            },
            r matches Some(m) ==> m.version == version,
    {
        proof {
            use_type_invariant(self);
        }
        self.migrations.get(&version)
    }

    /// The versions still to apply, given those applied: every version not applied, in
    /// increasing order.
    pub fn pending_versions(&self, applied: &[i64]) -> (r: Vec<i64>)
        ensures
            strictly_increasing(r@),
            forall|v: i64| r@.contains(v) <==> (self.migrations().contains_key(v) && !applied@.contains(v)),
    {
        let mut r: Vec<i64> = Vec::new();
        proof {
            assert(vstd::std_specs::hash::spec_keys_iter(&self.migrations).remaining().unref().to_set() == self.migrations@.dom());
        }
        for k in it: self.migrations.keys()
            invariant
                it.seq().unref().to_set() == self.migrations@.dom(),
                it.seq().no_duplicates(),
                strictly_increasing(r@),
                forall|v: i64| r@.contains(v) ==> self.migrations().contains_key(v) && !applied@.contains(v),
                forall|v: i64| r@.contains(v) ==> it.seq().unref().take(it.index() as int).contains(v),
                forall|v: i64|
                    it.seq().unref().take(it.index() as int).contains(v) && !applied@.contains(v) ==> #[trigger] r@.contains(v),
                it.index() == it.seq().len() ==> forall|v: i64|
                    self.migrations@.dom().contains(v) && !applied@.contains(v) ==> #[trigger] r@.contains(v),
        {
            let x = *k;
            proof {
                let s = it.seq().unref();
                let i = it.index() as int;
                assert(s[i] == x);
                assert(s.to_set().contains(x));
                let t0 = s.take(i);
                let t1 = s.take(i + 1);
                assert(t1 == t0.push(x));
                assert forall|v: i64| t0.contains(v) implies t1.contains(v) by {
                    let k = choose|k: int| 0 <= k < t0.len() && t0[k] == v;
                    assert(t1[k] == v);
                }
                assert(t1[i] == x);
                assert forall|v: i64| t1.contains(v) implies t0.contains(v) || v == x by {
                    let k = choose|k: int| 0 <= k < t1.len() && t1[k] == v;
                    if k < i {
                        assert(t0[k] == v);
                    }
                }
                assert(!t0.contains(x)) by {
                    if t0.contains(x) {
                        let k = choose|k: int| 0 <= k < t0.len() && t0[k] == x;
                        assert(s[k] == s[i]);
                    }
                }
            }
            if !contains_i64(applied, x) {
                insert_sorted(&mut r, x);
            }
            proof {
                let s = it.seq().unref();
                let i = it.index() as int;
                assert(i + 1 == s.len() ==> s.take(i + 1) == s);
                assert forall|v: i64|
                    i + 1 == s.len() && self.migrations@.dom().contains(v) && !applied@.contains(v) implies #[trigger] r@.contains(v) by {
                    assert(s.to_set().contains(v));
                    assert(s.take(i + 1).contains(v));
                }
            }
        }
        r
    }

    /// What rolling back comes to, given the versions applied in increasing order: the
    /// last one, which is then the largest, is rolled back by its `down` script; a migration
    /// without one is refused; with nothing applied, or a last version this migrator does
    /// not know, nothing happens.
    pub fn rollback_plan(&self, applied: &[i64]) -> (r: RollbackPlan)
        ensures
            match r {
                RollbackPlan::Nothing => applied@.len() == 0 || !self.migrations().contains_key(applied@.last()),
                RollbackPlan::Run(v, d) => {
                    &&& applied@.len() > 0
                    &&& v == applied@.last()
                    &&& increasing(applied@) ==> forall|i: int| 0 <= i < applied@.len() ==> #[trigger] applied@[i] <= v
                    &&& self.migrations().contains_key(v)
                    &&& self.migrations()[v].down matches Some(x) && x@ == d@
                },
                RollbackPlan::Refuse(e) => {
                    &&& applied@.len() > 0
                    &&& increasing(applied@) ==> forall|i: int| 0 <= i < applied@.len() ==> #[trigger] applied@[i]
                        <= applied@.last()
                    &&& self.migrations().contains_key(applied@.last())
                    &&& self.migrations()[applied@.last()].down is None
                    &&& e matches MigrationError::MigrationFailed(w, m) && w == applied@.last() && m@
                        == "No down migration provided"@
                },
            },
    {
        if applied.len() == 0 {
            return RollbackPlan::Nothing;
        }
        let last = applied[applied.len() - 1];
        match self.migrations.get(&last) {
            Some(m) => match &m.down {
                Some(d) => RollbackPlan::Run(last, d.clone()),
                None => RollbackPlan::Refuse(
                    MigrationError::MigrationFailed(last, "No down migration provided".to_owned()),
                ),
            },
            None => {
                assert(!self.migrations@.contains_key(last));
                RollbackPlan::Nothing
            },
        }
    }
}

/// A version added to a migrator is refused the next time: after a successful addition
/// the version is known, and adding any migration with it again fails.
pub proof fn lemma_added_version_is_taken(before: Map<i64, Migration>, m: Migration)
    requires
        !before.contains_key(m.version),
    ensures
        before.insert(m.version, m).contains_key(m.version),
        before.insert(m.version, m)[m.version] == m,
        forall|v: i64| v != m.version ==> (before.insert(m.version, m).contains_key(v) <==> before.contains_key(v)),
{
}

impl Default for Migrator {
    fn default() -> (r: Self)
        ensures
            r.migrations() == Map::<i64, Migration>::empty(),
    {
        Migrator::new()
    }
}

/// What applying the pending migrations asks for next.
#[derive(Debug)]
pub enum MigrateStep {
    /// Apply the migration with this version (its `up` script, then its record), in a
    /// transaction of its own.
    Apply(i64),
    /// The run is over: the versions applied, in order, or the failure that stopped it.
    Finished(Result<Vec<i64>, MigrationError>),
}

/// An outcome of applying a version, as text.
pub open spec fn applied_view(o: Result<(), String>) -> Result<(), Seq<char>> {
    match o {
        Ok(_) => Ok(()),
        Err(m) => Err(m@),
    }
}

/// Where a run over `pending` stands (how many versions were applied, and the failure that
/// stopped it, if any) after the outcome `o` of applying the version it asked for.
pub open spec fn migrate_after(
    pending: Seq<i64>,
    st: (int, Option<(i64, Seq<char>)>),
    o: Result<(), Seq<char>>,
) -> (int, Option<(i64, Seq<char>)>) {
    if st.1 is Some || st.0 < 0 || st.0 >= pending.len() {
        st
    } else {
        match o {
            Ok(_) => (st.0 + 1, None),
            Err(m) => (st.0, Some((pending[st.0], m))),
        }
    }
}

/// Where a run over `pending` stands after the outcomes `os`, in order.
pub open spec fn migrate_replay(
    pending: Seq<i64>,
    st: (int, Option<(i64, Seq<char>)>),
    os: Seq<Result<(), Seq<char>>>,
) -> (int, Option<(i64, Seq<char>)>)
    decreases os.len(),
{
    if os.len() == 0 {
        st
    } else {
        migrate_replay(pending, migrate_after(pending, st, os[0]), os.drop_first())
    }
}

/// `k` successful applications.
pub open spec fn all_applied(k: nat) -> Seq<Result<(), Seq<char>>> {
    Seq::new(k, |i: int| Ok::<(), Seq<char>>(()))
}

proof fn lemma_successes_from(pending: Seq<i64>, start: int, k: int)
    requires
        0 <= start,
        0 <= k,
        start + k <= pending.len(),
    ensures
        migrate_replay(pending, (start, None), all_applied(k as nat)) == (start + k, None::<(i64, Seq<char>)>),
    decreases k,
{
    if k > 0 {
        assert(all_applied(k as nat).drop_first() =~= all_applied((k - 1) as nat));
        lemma_successes_from(pending, start + 1, k - 1);
    }
}

proof fn lemma_stopped_stays(pending: Seq<i64>, st: (int, Option<(i64, Seq<char>)>), os: Seq<Result<(), Seq<char>>>)
    requires
        st.1 is Some,
    ensures
        migrate_replay(pending, st, os) == st,
    decreases os.len(),
{
    if os.len() > 0 {
        lemma_stopped_stays(pending, st, os.drop_first());
    }
}

/// A whole run from the start: when every version applies, the run has applied them all,
/// in order, and reports `Ok` of them (see `MigrateRun::next_step`); when the version at
/// position `j` is the first to fail, with message `m`, the versions before it are applied,
/// no later version is attempted, and the run reports `MigrationFailed` of that version and
/// message, whatever it is told afterwards.
pub proof fn lemma_whole_migrate_run(pending: Seq<i64>, j: int, m: Seq<char>, rest: Seq<Result<(), Seq<char>>>)
    ensures
        migrate_replay(pending, (0, None), all_applied(pending.len())) == (pending.len() as int, None::<(i64, Seq<char>)>),
        0 <= j < pending.len() ==> migrate_replay(
            pending,
            (0, None),
            all_applied(j as nat) + seq![Err::<(), Seq<char>>(m)] + rest,
        ) == (j, Some((pending[j], m))),
{
    lemma_successes_from(pending, 0, pending.len() as int);
    if 0 <= j < pending.len() {
        let os = all_applied(j as nat) + seq![Err::<(), Seq<char>>(m)] + rest;
        lemma_replay_split(pending, (0, None), all_applied(j as nat), seq![Err::<(), Seq<char>>(m)] + rest);
        assert(os =~= all_applied(j as nat) + (seq![Err::<(), Seq<char>>(m)] + rest));
        lemma_successes_from(pending, 0, j);
        let tail = seq![Err::<(), Seq<char>>(m)] + rest;
        assert(tail[0] == Err::<(), Seq<char>>(m));
        assert(tail.drop_first() =~= rest);
        lemma_stopped_stays(pending, (j, Some((pending[j], m))), rest);
    }
}

proof fn lemma_replay_split(
    pending: Seq<i64>,
    st: (int, Option<(i64, Seq<char>)>),
    a: Seq<Result<(), Seq<char>>>,
    b: Seq<Result<(), Seq<char>>>,
)
    ensures
        migrate_replay(pending, st, a + b) == migrate_replay(pending, migrate_replay(pending, st, a), b),
    decreases a.len(),
{
    if a.len() == 0 {
        assert(a + b =~= b);
    } else {
        assert((a + b).drop_first() =~= a.drop_first() + b);
        assert((a + b)[0] == a[0]);
        lemma_replay_split(pending, migrate_after(pending, st, a[0]), a.drop_first(), b);
    }
}

/// Migrating again after a run that applied every pending version finds nothing to apply:
/// the versions pending the second time (every known version recorded neither before nor by
/// the first run) are none.
pub proof fn lemma_migrate_again_finds_nothing(
    known: Set<i64>,
    applied: Seq<i64>,
    first: Seq<i64>,
    second: Seq<i64>,
)
    requires
        forall|v: i64| first.contains(v) <==> (known.contains(v) && !applied.contains(v)),
        forall|v: i64| second.contains(v) <==> (known.contains(v) && !(applied + first).contains(v)),
    ensures
        second.len() == 0,
{
    if second.len() > 0 {
        let v = second[0];
        assert(second.contains(v));
        if applied.contains(v) {
            let k = choose|k: int| 0 <= k < applied.len() && applied[k] == v;
            assert((applied + first)[k] == v);
        } else {
            assert(first.contains(v));
            let k = choose|k: int| 0 <= k < first.len() && first[k] == v;
            assert((applied + first)[applied.len() + k] == v);
        }
    }
}

/// A run applying a migrator's pending migrations in increasing order of version: each is
/// applied in turn, and the first that fails ends the run (its transaction rolled back).
pub struct MigrateRun {
    pending: Vec<i64>,
    next: usize,
    failure: Option<(i64, String)>,
}

/// The failure of a run, as its version and message.
pub open spec fn failure_view(f: Option<(i64, String)>) -> Option<(i64, Seq<char>)> {
    match f {
        Some((v, m)) => Some((v, m@)),
        None => None,
    }
}

impl MigrateRun {
    /// The versions to apply, in order.
    pub closed spec fn pending(&self) -> Seq<i64> {
        self.pending@
    }

    /// How many of them were applied.
    pub closed spec fn next(&self) -> int {
        self.next as int
    }

    /// The version that failed and why, once one has.
    pub closed spec fn failure(&self) -> Option<(i64, Seq<char>)> {
        failure_view(self.failure)
    }

    #[verifier::type_invariant]
    spec fn wf(&self) -> bool {
        &&& self.next <= self.pending@.len()
        &&& self.failure matches Some(f) ==> self.next < self.pending@.len() && f.0 == self.pending@[self.next as int]
    }

    /// What the run asks for next: the next version to apply; or, once every version was
    /// applied, those versions; or, once one failed, `MigrationFailed` with its version and
    /// message.
    pub fn next_step(&self) -> (r: MigrateStep)
        ensures
            match r {
                MigrateStep::Apply(v) => self.failure() is None && self.next() < self.pending().len() && v
                    == self.pending()[self.next()],
                MigrateStep::Finished(Ok(vs)) => self.failure() is None && self.next() == self.pending().len()
                    && vs@ == self.pending(),
                MigrateStep::Finished(Err(e)) => self.failure() matches Some(f) && e matches MigrationError::MigrationFailed(
                    w,
                    m,
                ) && w == f.0 && m@ == f.1,
            },
    {
        proof {
            use_type_invariant(self);
        }
        match &self.failure {
            Some((v, m)) => MigrateStep::Finished(Err(MigrationError::MigrationFailed(*v, m.clone()))),
            None => if self.next < self.pending.len() {
                MigrateStep::Apply(self.pending[self.next])
            } else {
                let mut out: Vec<i64> = Vec::new();
                let n = self.pending.len();
                for i in 0..n
                    invariant
                        n == self.pending@.len(),
                        out@ == self.pending@.take(i as int),
                {
                    out.push(self.pending[i]);
                    assert(self.pending@.take(i + 1) == self.pending@.take(i as int).push(self.pending@[i as int]));
                }
                assert(self.pending@.take(n as int) == self.pending@);
                MigrateStep::Finished(Ok(out))
            },
        }
    }

    /// Takes the outcome of applying the version asked for: on success the run goes on to the
    /// next version; on failure it stops there, with the message. A finished run stays as it is.
    pub fn report(&mut self, outcome: Result<(), String>)
        ensures
            final(self).pending() == old(self).pending(),
            (final(self).next(), final(self).failure()) == migrate_after(
                old(self).pending(),
                (old(self).next(), old(self).failure()),
                applied_view(outcome),
            ),
            old(self).failure() is Some || old(self).next() == old(self).pending().len() ==> final(self).next()
                == old(self).next() && final(self).failure() == old(self).failure(),
            old(self).failure() is None && old(self).next() < old(self).pending().len() ==> match outcome {
                Ok(_) => final(self).next() == old(self).next() + 1 && final(self).failure() is None,
                Err(m) => final(self).next() == old(self).next() && final(self).failure() == Some(
                    (old(self).pending()[old(self).next()], m@),
                ),
            },
    {
        proof {
            use_type_invariant(&*self);
        }
        if self.failure.is_none() && self.next < self.pending.len() {
            match outcome {
                Ok(_) => {
                    self.next = self.next + 1;
                },
                Err(m) => {
                    let v = self.pending[self.next];
                    self.failure = Some((v, m));
                },
            }
        }
    }
}

impl Migrator {
    /// A run applying the migrations not applied yet (see `pending_versions`), from the first.
    pub fn start_migrate(&self, applied: &[i64]) -> (r: MigrateRun)
        ensures
            strictly_increasing(r.pending()),
            forall|v: i64| r.pending().contains(v) <==> (self.migrations().contains_key(v) && !applied@.contains(v)),
            r.next() == 0,
            r.failure() is None,
    {
        MigrateRun { pending: self.pending_versions(applied), next: 0, failure: None }
    }
}


} // verus!
