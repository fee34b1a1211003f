//! Unlinking replaced tables. A table that a reader still pins waits for a later attempt.

use vstd::prelude::*;

use super::tables::TableMeta;

verus! {

/// What came of trying to unlink a table.
#[derive(Clone, Copy, Debug, PartialEq, Eq, Structural)]
pub enum Removal {
    Removed,
    /// A reader still holds it.
    Pinned,
    /// Unlinking failed.
    Failed,
}

/// One attempt at every replaced table.
#[derive(Clone, Debug)]
pub struct CleanupPass {
    /// Not tried yet; the last is next.
    pub pending: Vec<TableMeta>,
    /// Tried, and to be tried again in a later pass.
    pub retained: Vec<TableMeta>,
}

impl CleanupPass {
    /// Every table that is not known to be unlinked.
    pub open spec fn waiting(&self) -> Seq<TableMeta> {
        self.retained@ + self.pending@
    }

    pub fn begin(obsolete: Vec<TableMeta>) -> (pass: CleanupPass)
        ensures
            pass.pending@ == obsolete@,
            pass.retained@.len() == 0,
    {
        CleanupPass { pending: obsolete, retained: Vec::new() }
    }

    /// Takes the next table to try.
    pub fn next(&mut self) -> (table: Option<TableMeta>)
        ensures
            final(self).retained@ == old(self).retained@,
            match table {
                Some(table) => old(self).pending@.len() > 0 && table == old(self).pending@.last()
                    && final(self).pending@ == old(self).pending@.drop_last(),
                None => old(self).pending@.len() == 0 && final(self).pending@ == old(
                    self,
                ).pending@,
            },
    {
        self.pending.pop()
    }

    /// Takes the outcome of trying `table` into account. A failure ends the pass: the table and all
    /// that are still untried wait for the next one.
    pub fn record(&mut self, table: TableMeta, removal: Removal)
        ensures
            match removal {
                Removal::Removed => final(self).retained@ == old(self).retained@
                    && final(self).pending@ == old(self).pending@,
                Removal::Pinned => final(self).retained@ == old(self).retained@.push(table)
                    && final(self).pending@ == old(self).pending@,
                Removal::Failed => final(self).retained@ == old(self).retained@.push(table) + old(
                    self,
                ).pending@ && final(self).pending@.len() == 0,
            },
    {
        match removal {
            Removal::Removed => {},
            Removal::Pinned => {
                self.retained.push(table);
            },
            Removal::Failed => {
                self.retained.push(table);
                let mut rest: Vec<TableMeta> = Vec::new();
                std::mem::swap(&mut rest, &mut self.pending);
                self.retained.append(&mut rest);
            },
        }
    }

    /// The tables that the next pass tries.
    pub fn finish(self) -> (obsolete: Vec<TableMeta>)
        requires
            self.pending@.len() == 0,
        ensures
            obsolete@ == self.retained@,
    {
        self.retained
    }
}

/// No table is forgotten: after a table was taken and its outcome recorded, the tables that wait
/// are those that waited before, less the table where it was unlinked.
pub proof fn law_cleanup_forgets_no_table(
    before: CleanupPass,
    table: TableMeta,
    removal: Removal,
    after: CleanupPass,
)
    requires
        before.pending@.len() > 0,
        table == before.pending@.last(),
        match removal {
            Removal::Removed => after.retained@ == before.retained@ && after.pending@
                == before.pending@.drop_last(),
            Removal::Pinned => after.retained@ == before.retained@.push(table) && after.pending@
                == before.pending@.drop_last(),
            Removal::Failed => after.retained@ == before.retained@.push(table)
                + before.pending@.drop_last() && after.pending@.len() == 0,
        },
    ensures
        after.waiting().to_multiset() =~= (if removal == Removal::Removed {
            before.waiting().to_multiset().remove(table)
        } else {
            before.waiting().to_multiset()
        }),
{
    broadcast use vstd::seq_lib::group_to_multiset_ensures;

    let rest = before.pending@.drop_last();
    vstd::seq_lib::lemma_multiset_commutative(before.retained@, before.pending@);
    vstd::seq_lib::lemma_multiset_commutative(before.retained@, rest);
    vstd::seq_lib::lemma_multiset_commutative(before.retained@.push(table), rest);
    vstd::seq_lib::lemma_multiset_commutative(after.retained@, after.pending@);
    assert(before.pending@ =~= rest.push(table));
    assert(before.pending@.to_multiset() =~= rest.to_multiset().insert(table));
    assert(before.retained@.push(table).to_multiset() =~= before.retained@.to_multiset().insert(
        table,
    ));
    if after.pending@.len() == 0 {
        assert(after.pending@ =~= Seq::<TableMeta>::empty());
        assert(after.waiting() =~= after.retained@);
    }
    if removal == Removal::Removed {
        assert(after.waiting() =~= before.retained@ + rest);
    } else if removal == Removal::Pinned {
        assert(after.waiting() =~= before.retained@.push(table) + rest);
    } else {
        assert(after.waiting() =~= before.retained@.push(table) + rest);
    }
}

} // verus!
