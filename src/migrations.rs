//! Deciding which migrations of a chain to apply, and in what order. The
//! caller applies each one inside a transaction and reports back; the
//! runner stops at the first failure, so the applied migrations are always
//! a prefix of the pending ones.

use vstd::prelude::*;
use crate::text::same_text;

verus! {

/// The names of a sequence of migrations.
pub open spec fn name_views(v: Seq<String>) -> Seq<Seq<char>> {
    v.map_values(|s: String| s@)
}

/// The migrations of `chain` that are not in `applied`, in chain order.
pub open spec fn unapplied(chain: Seq<Seq<char>>, applied: Seq<Seq<char>>) -> Seq<Seq<char>>
    decreases chain.len(),
{
    if chain.len() == 0 {
        Seq::empty()
    } else {
        let r = unapplied(chain.drop_last(), applied);
        if applied.contains(chain.last()) {
            r
        } else {
            r.push(chain.last())
        }
    }
}

fn contains_name(names: &Vec<String>, name: &str) -> (r: bool)
    ensures
        r == name_views(names@).contains(name@),
{
    let mut i: usize = 0;
    while i < names.len()
        invariant
            i <= names@.len(),
            forall|j: int| 0 <= j < i ==> names@[j]@ != name@,
        decreases names@.len() - i,
    {
        if same_text(names[i].as_str(), name) {
            assert(name_views(names@)[i as int] == name@);
            return true;
        }
        i += 1;
    }
    proof {
        if name_views(names@).contains(name@) {
            let j = choose|j: int| 0 <= j < name_views(names@).len() && name_views(names@)[j] == name@;
            assert(names@[j]@ == name@);
        }
    }
    false
}

/// The migrations of `chain` not yet applied, in chain order.
pub fn unapplied_migrations(chain: &Vec<String>, applied: &Vec<String>) -> (r: Vec<String>)
    ensures
        name_views(r@) == unapplied(name_views(chain@), name_views(applied@)),
{
    let ghost all = name_views(chain@);
    let mut r: Vec<String> = Vec::new();
    let mut i: usize = 0;
    while i < chain.len()
        invariant
            i <= chain@.len(),
            all == name_views(chain@),
            name_views(r@) == unapplied(all.subrange(0, i as int), name_views(applied@)),
        decreases chain@.len() - i,
    {
        let ghost p = all.subrange(0, i + 1);
        assert(p.drop_last() =~= all.subrange(0, i as int));
        assert(p.last() == chain@[i as int]@);
        let ghost before = name_views(r@);
        assert(before.len() == r@.len());
        if !contains_name(applied, chain[i].as_str()) {
            r.push(chain[i].clone());
            assert(name_views(r@) =~= before.push(p.last()));
        }
        i += 1;
    }
    assert(all.subrange(0, i as int) =~= all);
    r
}

/// What the runner asks for next.
#[derive(Clone, Copy, Debug, PartialEq, Eq, Structural)]
pub enum RunAction {
    /// Apply the pending migration at this index inside one transaction.
    Apply(usize),
    /// Every pending migration is applied.
    Done,
    /// A migration failed; nothing more is applied.
    Stopped,
}

/// The state of a run over the pending migrations of a chain.
#[derive(Debug)]
pub struct MigrationRunner {
    pending: Vec<String>,
    applied: usize,
    failed: bool,
}

impl MigrationRunner {
    /// The pending migrations, in the order they are applied.
    pub closed spec fn spec_pending(&self) -> Seq<Seq<char>> {
        name_views(self.pending@)
    }

    /// How many of them are applied.
    pub closed spec fn spec_applied(&self) -> nat {
        self.applied as nat
    }

    pub closed spec fn spec_failed(&self) -> bool {
        self.failed
    }

    pub closed spec fn wf(&self) -> bool {
        self.applied <= self.pending@.len()
    }

    /// A run over the migrations of `chain` that `applied` does not hold.
    pub fn new(chain: &Vec<String>, applied: &Vec<String>) -> (r: MigrationRunner)
        ensures
            r.wf(),
            r.spec_pending() == unapplied(name_views(chain@), name_views(applied@)),
            r.spec_applied() == 0,
            !r.spec_failed(),
    {
        MigrationRunner { pending: unapplied_migrations(chain, applied), applied: 0, failed: false }
    }

    /// The next step: the first pending migration not yet applied, unless
    /// all are applied or one failed.
    pub fn next_action(&self) -> (r: RunAction)
        requires
            self.wf(),
        ensures
            self.spec_failed() ==> r == RunAction::Stopped,
            !self.spec_failed() && self.spec_applied() == self.spec_pending().len() ==> r
                == RunAction::Done,
            !self.spec_failed() && self.spec_applied() < self.spec_pending().len() ==> r
                == RunAction::Apply(self.spec_applied() as usize),
    {
        if self.failed {
            RunAction::Stopped
        } else if self.applied == self.pending.len() {
            RunAction::Done
        } else {
            RunAction::Apply(self.applied)
        }
    }

    /// The name of pending migration `idx`.
    pub fn pending_name(&self, idx: usize) -> (r: &str)
        requires
            idx < self.spec_pending().len(),
        ensures
            r@ == self.spec_pending()[idx as int],
    {
        self.pending[idx].as_str()
    }

    /// Records the outcome of the migration that `next_action` asked for.
    pub fn record(&mut self, succeeded: bool)
        requires
            old(self).wf(),
            !old(self).spec_failed(),
            old(self).spec_applied() < old(self).spec_pending().len(),
        ensures
            final(self).wf(),
            final(self).spec_pending() == old(self).spec_pending(),
            succeeded ==> final(self).spec_applied() == old(self).spec_applied() + 1
                && !final(self).spec_failed(),
            !succeeded ==> final(self).spec_applied() == old(self).spec_applied()
                && final(self).spec_failed(),
    {
        assert(name_views(self.pending@).len() == self.pending@.len());
        let n = self.pending.len();
        assert(self.applied < n);
        if succeeded {
            self.applied = self.applied + 1;
        } else {
            self.failed = true;
        }
    }

    /// The names of the migrations this run applied, in order: always the
    /// first ones pending.
    pub fn applied_names(&self) -> (r: Vec<String>)
        requires
            self.wf(),
        ensures
            name_views(r@) == self.spec_pending().subrange(0, self.spec_applied() as int),
    {
        let mut r: Vec<String> = Vec::new();
        let mut i: usize = 0;
        while i < self.applied
            invariant
                i <= self.applied <= self.pending@.len(),
                name_views(r@) == name_views(self.pending@).subrange(0, i as int),
            decreases self.applied - i,
        {
            let ghost before = name_views(r@);
            assert(before.len() == r@.len());
            r.push(self.pending[i].clone());
            i += 1;
            assert(name_views(r@) =~= name_views(self.pending@).subrange(0, i as int));
        }
        r
    }
}

} // verus!
