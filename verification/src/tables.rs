//! The forest-wide table registry: an append-only arena of per-goal solving
//! records, indexed by canonical goal identity.
//!
//! The registry is the sole owner of the records; everything else holds a
//! `TableIndex`, a stable handle that stays valid for the whole solve
//! session because the registry only ever appends. Lookup resolves a goal
//! to the handle of the most recently inserted record with a memo-key-equal
//! goal, as a hash index whose duplicate insertions overwrite would.

use vstd::prelude::*;
use crate::key::{lemma_same_ucanonical_goal_refl, same_ucanonical_goal, ucanonical_goal_eq};
use crate::term::{AnswerSubst, Canonical, Goal, InEnvironment, UCanonical};

verus! {

/// The stable, append-only-assigned handle of one memo entry.
#[derive(Clone, Copy, Debug, PartialEq, Eq, Structural)]
pub struct TableIndex {
    pub value: usize,
}

/// The solving record of one canonical goal: the goal itself (the memo
/// key), whether it is solved coinductively, and the answers produced for
/// it so far.
pub struct Table {
    pub table_goal: UCanonical<InEnvironment<Goal>>,
    pub coinductive_goal: bool,
    pub answers: Vec<Canonical<AnswerSubst>>,
}

/// Where a lookup for `goal` lands in `tables`: the position of the last
/// record whose goal is memo-key-equal to it, if any.
pub open spec fn spec_index_of(tables: Seq<Table>, goal: UCanonical<InEnvironment<Goal>>) -> Option<
    int,
>
    decreases tables.len(),
{
    if tables.len() == 0 {
        None
    } else if same_ucanonical_goal(tables.last().table_goal, goal) {
        Some(tables.len() - 1)
    } else {
        spec_index_of(tables.drop_last(), goal)
    }
}

/// The registry. It monotonically grows for the session's duration and
/// never shrinks or reorders, so indices handed out stay valid.
pub struct Tables {
    tables: Vec<Table>,
}

impl Tables {
    /// A fresh, empty registry for one top-level solve session.
    pub fn new() -> (r: Tables)
        ensures
            r@.len() == 0,
    {
        Tables { tables: Vec::new() }
    }

    /// The whole record sequence, for specification purposes.
    pub closed spec fn view(&self) -> Seq<Table> {
        self.tables@
    }

    /// How many records the registry holds.
    pub fn len(&self) -> (r: usize)
        ensures
            r == self@.len(),
    {
        self.tables.len()
    }

    /// The index that the next insertion will receive. Pure: callers that
    /// must know a goal's future handle before building its record rely on
    /// this performing no mutation.
    pub fn next_index(&self) -> (r: TableIndex)
        ensures
            r.value == self@.len(),
    {
        TableIndex { value: self.tables.len() }
    }

    /// Appends a new record and indexes its goal. No deduplication is
    /// performed: inserting a second record for a memo-key-equal goal
    /// creates two live entries, and lookups from then on resolve to the
    /// newer one. Callers that want one entry per goal must consult
    /// `index_of` first and insert only on a miss.
    pub fn insert(&mut self, table: Table) -> (r: TableIndex)
        ensures
            r.value == old(self)@.len(),
            final(self)@ == old(self)@.push(table),
            spec_index_of(final(self)@, table.table_goal) == Some(r.value as int),
    {
        let index = self.next_index();
        proof {
            lemma_same_ucanonical_goal_refl(table.table_goal);
        }
        self.tables.push(table);
        proof {
            assert(self@.last() == self@[self@.len() - 1]);
        }
        index
    }

    /// Looks the goal up: the handle of the last record with a
    /// memo-key-equal goal, or none if no record matches.
    pub fn index_of(&self, literal: &UCanonical<InEnvironment<Goal>>) -> (r: Option<TableIndex>)
        ensures
            match r {
                Some(ti) => spec_index_of(self@, *literal) == Some(ti.value as int),
                None => spec_index_of(self@, *literal) is None,
            },
    {
        let n = self.tables.len();
        let mut i: usize = n;
        proof {
            assert(self@.subrange(0, n as int) =~= self@);
        }
        loop
            invariant
                i <= n,
                n == self@.len(),
                spec_index_of(self@, *literal) == spec_index_of(
                    self@.subrange(0, i as int),
                    *literal,
                ),
            decreases i,
        {
            if i == 0 {
                return None;
            }
            let probe = i - 1;
            if ucanonical_goal_eq(&self.tables[probe].table_goal, literal) {
                proof {
                    let pre = self@.subrange(0, i as int);
                    assert(pre.last() == self@[probe as int]);
                }
                return Some(TableIndex { value: probe });
            }
            proof {
                let pre = self@.subrange(0, i as int);
                assert(pre.last() == self@[probe as int]);
                assert(pre.drop_last() =~= self@.subrange(0, probe as int));
            }
            i = probe;
        }
    }

    /// Borrows the record a handle refers to. Handles are only ever
    /// obtained from `next_index`, `insert`, or `index_of` on this same
    /// registry, so they are always in range.
    pub fn index(&self, index: TableIndex) -> (r: &Table)
        requires
            index.value < self@.len(),
        ensures
            *r == self@[index.value as int],
    {
        &self.tables[index.value]
    }

    /// Replaces the record a handle refers to, handing the old record
    /// back; this is how a solving step updates a table's state.
    pub fn index_replace(&mut self, index: TableIndex, table: Table) -> (r: Table)
        requires
            index.value < old(self)@.len(),
        ensures
            r == old(self)@[index.value as int],
            final(self)@ == old(self)@.update(index.value as int, table),
    {
        self.tables.push(table);
        let r = self.tables.swap_remove(index.value);
        proof {
            assert(self@ =~= old(self)@.update(index.value as int, table));
        }
        r
    }
}

/// The registry is append-only: after inserting `a` and then `b` into a
/// fresh registry, `a`'s goal resolves to handle 0 and `b`'s to handle 1,
/// and a goal matching neither record resolves to nothing. (`b` must not
/// share `a`'s goal: the registry does not deduplicate, so a duplicate
/// insertion would make lookups resolve to the newer entry.)
pub proof fn lemma_registry_append_only(a: Table, b: Table, c: UCanonical<InEnvironment<Goal>>)
    requires
        !same_ucanonical_goal(b.table_goal, a.table_goal),
        !same_ucanonical_goal(a.table_goal, c),
        !same_ucanonical_goal(b.table_goal, c),
    ensures
        spec_index_of(seq![a, b], a.table_goal) == Some(0int),
        spec_index_of(seq![a, b], b.table_goal) == Some(1int),
        spec_index_of(seq![a, b], c) is None,
{
    lemma_same_ucanonical_goal_refl(a.table_goal);
    lemma_same_ucanonical_goal_refl(b.table_goal);
    let s = seq![a, b];
    let s1 = seq![a];
    assert(s.last() == b);
    assert(s.drop_last() =~= s1);
    assert(s1.last() == a);
    assert(s1.drop_last() =~= Seq::<Table>::empty());
    assert(spec_index_of(Seq::<Table>::empty(), c) is None);
    assert(spec_index_of(s1, a.table_goal) == Some(0int));
    assert(spec_index_of(s1, c) is None);
    assert(spec_index_of(s, a.table_goal) == spec_index_of(s1, a.table_goal));
    assert(spec_index_of(s, c) == spec_index_of(s1, c));
    assert(spec_index_of(s, b.table_goal) == Some(1int));
}

} // verus!
