//! Amounts by address.
use crate::address::Address;
use vstd::prelude::*;

verus! {

/// A table from addresses to amounts, in which no address occurs twice.
pub struct AmountTable {
    rows: Vec<(Address, i128)>,
}

/// The map that a list of rows stands for.
spec fn rows_map(rows: Seq<(Address, i128)>) -> Map<Address, i128>
    decreases rows.len(),
{
    if rows.len() == 0 {
        Map::empty()
    } else {
        rows_map(rows.drop_last()).insert(rows.last().0, rows.last().1)
    }
}

/// No address stands in two rows.
spec fn distinct(rows: Seq<(Address, i128)>) -> bool {
    forall|i: int, j: int|
        #![trigger rows[i], rows[j]]
        0 <= i < j < rows.len() ==> rows[i].0 != rows[j].0
}

/// An address is in the map exactly where some row names it.
proof fn lemma_domain(rows: Seq<(Address, i128)>, who: Address)
    ensures
        rows_map(rows).contains_key(who) <==> exists|i: int|
            0 <= i < rows.len() && (#[trigger] rows[i]).0 == who,
    decreases rows.len(),
{
    if rows.len() > 0 {
        let shorter = rows.drop_last();
        lemma_domain(shorter, who);
        if rows_map(shorter).contains_key(who) {
            let i = choose|i: int| 0 <= i < shorter.len() && (#[trigger] shorter[i]).0 == who;
            assert(rows[i].0 == who);
        }
        if rows.last().0 == who {
            assert(rows[rows.len() - 1].0 == who);
        }
        if exists|i: int| 0 <= i < rows.len() && (#[trigger] rows[i]).0 == who {
            let i = choose|i: int| 0 <= i < rows.len() && (#[trigger] rows[i]).0 == who;
            if i < rows.len() - 1 {
                assert(shorter[i].0 == who);
            }
        }
    }
}

/// Every row is what the map says of its address.
proof fn lemma_row(rows: Seq<(Address, i128)>, i: int)
    requires
        distinct(rows),
        0 <= i < rows.len(),
    ensures
        rows_map(rows).contains_key(rows[i].0),
        rows_map(rows)[rows[i].0] == rows[i].1,
    decreases rows.len(),
{
    if i < rows.len() - 1 {
        let shorter = rows.drop_last();
        assert(forall|k: int| 0 <= k < shorter.len() ==> shorter[k] == rows[k]);
        lemma_row(shorter, i);
        assert(rows[i].0 != rows[rows.len() - 1].0);
    }
}

impl View for AmountTable {
    type V = Map<Address, i128>;

    closed spec fn view(&self) -> Map<Address, i128> {
        rows_map(self.rows@)
    }
}

impl AmountTable {
    /// No address occurs twice.
    pub closed spec fn wf(&self) -> bool {
        distinct(self.rows@)
    }

    /// A table without rows.
    pub fn new() -> (table: AmountTable)
        ensures
            table.wf(),
            table@ == Map::<Address, i128>::empty(),
    {
        AmountTable { rows: Vec::new() }
    }

    /// The row of an address, if there is one.
    fn position(&self, who: Address) -> (found: Option<usize>)
        requires
            self.wf(),
        ensures
            match found {
                Some(i) => {
                    &&& i < self.rows.len()
                    &&& self.rows[i as int].0 == who
                    &&& self@.contains_key(who)
                    &&& self@[who] == self.rows[i as int].1
                },
                None => {
                    &&& !self@.contains_key(who)
                    &&& forall|j: int| 0 <= j < self.rows.len() ==> self.rows[j].0 != who
                },
            },
    {
        let mut i: usize = 0;
        while i < self.rows.len()
            invariant
                i <= self.rows.len(),
                self.wf(),
                forall|j: int| 0 <= j < i ==> self.rows[j].0 != who,
            decreases self.rows.len() - i,
        {
            if self.rows[i].0 == who {
                proof {
                    lemma_row(self.rows@, i as int);
                }
                return Some(i);
            }
            i = i + 1;
        }
        proof {
            lemma_domain(self.rows@, who);
        }
        None
    }

    /// The amount of an address, if it has one.
    pub fn get(&self, who: Address) -> (amount: Option<i128>)
        requires
            self.wf(),
        ensures
            amount == (if self@.contains_key(who) {
                Some(self@[who])
            } else {
                None
            }),
    {
        match self.position(who) {
            Some(i) => Some(self.rows[i].1),
            None => None,
        }
    }

    /// Gives an address an amount, in place of the one it had.
    pub fn set(&mut self, who: Address, amount: i128)
        requires
            old(self).wf(),
        ensures
            final(self).wf(),
            final(self)@ == old(self)@.insert(who, amount),
    {
        let ghost before = self.rows@;
        match self.position(who) {
            Some(i) => {
                self.rows.set(i, (who, amount));
                proof {
                    lemma_overwritten(before, i as int, amount);
                }
            },
            None => {
                self.rows.push((who, amount));
                assert(self.rows@.drop_last() =~= before);
            },
        }
    }

    /// Another table with the same rows.
    pub fn duplicate(&self) -> (table: AmountTable)
        requires
            self.wf(),
        ensures
            table.wf(),
            table@ == self@,
    {
        let mut rows: Vec<(Address, i128)> = Vec::new();
        let mut i: usize = 0;
        while i < self.rows.len()
            invariant
                i <= self.rows.len(),
                rows@ == self.rows@.take(i as int),
            decreases self.rows.len() - i,
        {
            rows.push(self.rows[i]);
            assert(rows@ =~= self.rows@.take(i + 1));
            i = i + 1;
        }
        assert(rows@ =~= self.rows@);
        AmountTable { rows }
    }
}

/// Overwriting the amount of a row overwrites the amount of its address.
proof fn lemma_overwritten(rows: Seq<(Address, i128)>, i: int, amount: i128)
    requires
        distinct(rows),
        0 <= i < rows.len(),
    ensures
        distinct(rows.update(i, (rows[i].0, amount))),
        rows_map(rows.update(i, (rows[i].0, amount))) == rows_map(rows).insert(rows[i].0, amount),
{
    let who = rows[i].0;
    let after = rows.update(i, (who, amount));
    let left = rows_map(after);
    let right = rows_map(rows).insert(who, amount);
    assert forall|a: Address| left.contains_key(a) <==> right.contains_key(a) by {
        lemma_domain(rows, a);
        lemma_domain(after, a);
        if left.contains_key(a) {
            let k = choose|k: int| 0 <= k < after.len() && (#[trigger] after[k]).0 == a;
            assert(rows[k].0 == a);
        }
        if rows_map(rows).contains_key(a) {
            let k = choose|k: int| 0 <= k < rows.len() && (#[trigger] rows[k]).0 == a;
            assert(after[k].0 == a);
        }
        assert(after[i].0 == who);
    }
    assert forall|a: Address| left.contains_key(a) implies left[a] == right[a] by {
        lemma_domain(after, a);
        let k = choose|k: int| 0 <= k < after.len() && (#[trigger] after[k]).0 == a;
        lemma_row(after, k);
        lemma_row(rows, k);
        assert(k != i ==> rows[k].0 != rows[i].0);
    }
    assert(left =~= right);
}

} // verus!
