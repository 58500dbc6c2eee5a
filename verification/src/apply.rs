use vstd::prelude::*;
use crate::statements::{unit_view, MigrationUnit};

verus! {

/// Where a run of migration work stands.
#[derive(Debug, Clone, Copy, PartialEq, Eq, Structural)]
pub enum ApplyPhase {
    /// About to ask whether the current unit was applied before (or to commit, past the last).
    Checking,
    /// Running the current statement of the current unit.
    Executing,
    /// Recording the current unit as applied.
    Recording,
    /// A statement or a record failed: the work is to be rolled back.
    Failed,
}

/// What the run asks for next.
#[derive(Debug)]
pub enum ApplyAction {
    /// Ask whether a unit is recorded under this key.
    Check(String),
    /// Run this statement.
    Execute(String),
    /// Record this key as applied.
    Record(String),
    /// Every unit is applied or was before: commit.
    Commit,
    /// Something failed: roll back and report that the migrations could not be applied.
    Abort,
}

/// A run through migration work, one unit after another, inside one transaction: a unit
/// recorded before is skipped; otherwise its statements run in order and it is recorded;
/// the first failure ends the run.
pub struct MigrationRun {
    units: Vec<MigrationUnit>,
    unit: usize,
    stmt: usize,
    phase: ApplyPhase,
}

/// The total work of units from `i` on: per unit, its statements and two steps more (the
/// check and the record).
pub open spec fn work_from(units: Seq<(Seq<char>, Seq<Seq<char>>)>, i: int) -> int
    decreases units.len() - i,
{
    if i < 0 || i >= units.len() {
        0
    } else {
        units[i].1.len() + 2 + work_from(units, i + 1)
    }
}

proof fn lemma_work_from_nonneg(units: Seq<(Seq<char>, Seq<Seq<char>>)>, i: int)
    ensures
        work_from(units, i) >= 0,
    decreases units.len() - i,
{
    if 0 <= i < units.len() {
        lemma_work_from_nonneg(units, i + 1);
    }
}

/// Where a run stands after the answer `outcome` to what it asked in state `st` (the current
/// unit, the current statement and the phase), over `units`.
pub open spec fn after_report(
    units: Seq<(Seq<char>, Seq<Seq<char>>)>,
    st: (int, int, ApplyPhase),
    outcome: bool,
) -> (int, int, ApplyPhase) {
    let (u, s, p) = st;
    match p {
        ApplyPhase::Checking => if u >= units.len() {
            st
        } else if outcome {
            (u + 1, s, ApplyPhase::Checking)
        } else if units[u].1.len() == 0 {
            (u, s, ApplyPhase::Recording)
        } else {
            (u, 0, ApplyPhase::Executing)
        },
        ApplyPhase::Executing => if !outcome {
            (u, s, ApplyPhase::Failed)
        } else if s + 1 < units[u].1.len() {
            (u, s + 1, ApplyPhase::Executing)
        } else {
            (u, s, ApplyPhase::Recording)
        },
        ApplyPhase::Recording => if outcome {
            (u + 1, s, ApplyPhase::Checking)
        } else {
            (u, s, ApplyPhase::Failed)
        },
        ApplyPhase::Failed => st,
    }
}

/// Where a run in state `st` stands after the answers `outs`, in order.
pub open spec fn replay(
    units: Seq<(Seq<char>, Seq<Seq<char>>)>,
    st: (int, int, ApplyPhase),
    outs: Seq<bool>,
) -> (int, int, ApplyPhase)
    decreases outs.len(),
{
    if outs.len() == 0 {
        st
    } else {
        replay(units, after_report(units, st, outs[0]), outs.drop_first())
    }
}

/// `k` answers "recorded before".
pub open spec fn all_recorded(k: nat) -> Seq<bool> {
    Seq::new(k, |i: int| true)
}

proof fn lemma_recorded_steps(units: Seq<(Seq<char>, Seq<Seq<char>>)>, u: int, s: int, k: int)
    requires
        0 <= u,
        0 <= k,
        u + k <= units.len(),
    ensures
        replay(units, (u, s, ApplyPhase::Checking), all_recorded(k as nat)) == (u + k, s, ApplyPhase::Checking),
    decreases k,
{
    if k > 0 {
        assert(all_recorded(k as nat).drop_first() =~= all_recorded((k - 1) as nat));
        lemma_recorded_steps(units, u + 1, s, k - 1);
    }
}

/// A run at a check whose every check is answered "recorded before" asks only checks, one
/// unit after another, and then commits: it executes and records nothing. After `k` such
/// answers it checks unit `u + k`; after one per unit left it stands past the last unit,
/// where it asks to commit.
pub proof fn lemma_all_recorded_commits(units: Seq<(Seq<char>, Seq<Seq<char>>)>, u: int, s: int)
    requires
        0 <= u <= units.len(),
    ensures
        forall|k: int|
            0 <= k <= units.len() - u ==> #[trigger] replay(units, (u, s, ApplyPhase::Checking), all_recorded(k as nat))
                == (u + k, s, ApplyPhase::Checking),
        replay(units, (u, s, ApplyPhase::Checking), all_recorded((units.len() - u) as nat)) == (
            units.len() as int,
            s,
            ApplyPhase::Checking,
        ),
{
    assert forall|k: int| 0 <= k <= units.len() - u implies #[trigger] replay(
        units,
        (u, s, ApplyPhase::Checking),
        all_recorded(k as nat),
    ) == (u + k, s, ApplyPhase::Checking) by {
        lemma_recorded_steps(units, u, s, k);
    }
    lemma_recorded_steps(units, u, s, units.len() - u);
}

impl MigrationRun {
    /// The units of work.
    pub closed spec fn units(&self) -> Seq<(Seq<char>, Seq<Seq<char>>)> {
        self.units@.map_values(|u: MigrationUnit| unit_view(u))
    }

    /// The index of the current unit.
    pub closed spec fn unit(&self) -> int {
        self.unit as int
    }

    /// The index of the current statement within the current unit.
    pub closed spec fn stmt(&self) -> int {
        self.stmt as int
    }

    /// The phase of the run.
    pub closed spec fn phase(&self) -> ApplyPhase {
        self.phase
    }

    #[verifier::type_invariant]
    spec fn wf(&self) -> bool {
        &&& self.unit <= self.units@.len()
        &&& self.phase == ApplyPhase::Executing ==> self.unit < self.units@.len() && self.stmt
            < self.units@[self.unit as int].statements@.len()
        &&& self.phase == ApplyPhase::Recording ==> self.unit < self.units@.len()
    }

    /// The work left: that of the units from the current one on, less what the current
    /// unit has done (`-1` once failed).
    pub open spec fn remaining(&self) -> int {
        match self.phase() {
            ApplyPhase::Checking => work_from(self.units(), self.unit()),
            ApplyPhase::Executing => work_from(self.units(), self.unit()) - 1 - self.stmt(),
            ApplyPhase::Recording => work_from(self.units(), self.unit()) - 1 - self.units()[self.unit()].1.len(),
            ApplyPhase::Failed => -1,
        }
    }

    /// A run over `units`, at the first.
    pub fn new(units: Vec<MigrationUnit>) -> (r: Self)
        ensures
            r.units() == units@.map_values(|u: MigrationUnit| unit_view(u)),
            r.unit() == 0,
            r.phase() == ApplyPhase::Checking,
    {
        MigrationRun { units, unit: 0, stmt: 0, phase: ApplyPhase::Checking }
    }

    /// What the run asks for next.
    pub fn next_action(&self) -> (r: ApplyAction)
        ensures
            match r {
                ApplyAction::Check(k) => self.phase() == ApplyPhase::Checking && self.unit() < self.units().len()
                    && k@ == self.units()[self.unit()].0,
                ApplyAction::Execute(s) => self.phase() == ApplyPhase::Executing && 0 <= self.stmt()
                    < self.units()[self.unit()].1.len() && s@ == self.units()[self.unit()].1[self.stmt()],
                ApplyAction::Record(k) => self.phase() == ApplyPhase::Recording && k@ == self.units()[self.unit()].0,
                ApplyAction::Commit => self.phase() == ApplyPhase::Checking && self.unit() == self.units().len(),
                ApplyAction::Abort => self.phase() == ApplyPhase::Failed,
            },
    {
        proof {
            use_type_invariant(self);
        }
        match self.phase {
            ApplyPhase::Checking => {
                if self.unit < self.units.len() {
                    ApplyAction::Check(self.units[self.unit].key.clone())
                } else {
                    ApplyAction::Commit
                }
            },
            ApplyPhase::Executing => ApplyAction::Execute(self.units[self.unit].statements[self.stmt].clone()),
            ApplyPhase::Recording => ApplyAction::Record(self.units[self.unit].key.clone()),
            ApplyPhase::Failed => ApplyAction::Abort,
        }
    }

    /// Takes the answer to the last action: for `Check`, whether the unit is recorded
    /// already; for `Execute` and `Record`, whether it succeeded. After `Commit` and `Abort`
    /// the run stays where it is.
    pub fn report(&mut self, outcome: bool)
        ensures
            final(self).units() == old(self).units(),
            (final(self).unit(), final(self).stmt(), final(self).phase()) == after_report(
                old(self).units(),
                (old(self).unit(), old(self).stmt(), old(self).phase()),
                outcome,
            ),
            old(self).phase() != ApplyPhase::Failed && !(old(self).phase() == ApplyPhase::Checking
                && old(self).unit() == old(self).units().len()) ==> final(self).remaining() < old(self).remaining(),
            ({
                let u = old(self).unit();
                let s = old(self).stmt();
                let n = old(self).units()[u].1.len();
                match old(self).phase() {
                    ApplyPhase::Checking => if u == old(self).units().len() {
                        *final(self) == *old(self)
                    } else if outcome {
                        final(self).phase() == ApplyPhase::Checking && final(self).unit() == u + 1
                    } else if n == 0 {
                        final(self).phase() == ApplyPhase::Recording && final(self).unit() == u
                    } else {
                        final(self).phase() == ApplyPhase::Executing && final(self).unit() == u && final(self).stmt() == 0
                    },
                    ApplyPhase::Executing => if !outcome {
                        final(self).phase() == ApplyPhase::Failed
                    } else if s + 1 < n {
                        final(self).phase() == ApplyPhase::Executing && final(self).unit() == u && final(self).stmt() == s + 1
                    } else {
                        final(self).phase() == ApplyPhase::Recording && final(self).unit() == u
                    },
                    ApplyPhase::Recording => if outcome {
                        final(self).phase() == ApplyPhase::Checking && final(self).unit() == u + 1
                    } else {
                        final(self).phase() == ApplyPhase::Failed
                    },
                    ApplyPhase::Failed => *final(self) == *old(self),
                }
            }),
    {
        proof {
            use_type_invariant(&*self);
            let units = self.units();
            let u = self.unit();
            if u < units.len() {
                lemma_work_from_nonneg(units, u + 1);
                assert(work_from(units, u) == units[u].1.len() + 2 + work_from(units, u + 1));
                assert(units[u].1 == crate::text::string_views(self.units@[u].statements@));
            }
        }
        let count = self.units.len();
        match self.phase {
            ApplyPhase::Checking => {
                if self.unit < count {
                    if outcome {
                        self.unit = self.unit + 1;
                    } else if self.units[self.unit].statements.len() == 0 {
                        self.phase = ApplyPhase::Recording;
                    } else {
                        self.stmt = 0;
                        self.phase = ApplyPhase::Executing;
                    }
                }
            },
            ApplyPhase::Executing => {
                if !outcome {
                    self.phase = ApplyPhase::Failed;
                } else if self.stmt < self.units[self.unit].statements.len() - 1 {
                    self.stmt = self.stmt + 1;
                } else {
                    self.phase = ApplyPhase::Recording;
                }
            },
            ApplyPhase::Recording => {
                if outcome {
                    self.phase = ApplyPhase::Checking;
                    self.unit = self.unit + 1;
                } else {
                    self.phase = ApplyPhase::Failed;
                }
            },
            ApplyPhase::Failed => {},
        }
    }
}

} // verus!
