//! A frequency table: names with the number of times each was counted.

use vstd::prelude::*;
use vstd::string::*;

verus! {

/// The sum of the counts of the rows whose name `pick` accepts.
pub open spec fn weight(rows: Seq<(String, u64)>, pick: spec_fn(Seq<char>) -> bool) -> int
    decreases rows.len(),
{
    if rows.len() == 0 {
        0
    } else {
        weight(rows.drop_last(), pick) + if pick(rows.last().0@) {
            rows.last().1 as int
        } else {
            0
        }
    }
}

/// The test that accepts every name.
pub open spec fn any_name() -> spec_fn(Seq<char>) -> bool {
    |n: Seq<char>| true
}

/// The test that accepts one name.
pub open spec fn named(name: Seq<char>) -> spec_fn(Seq<char>) -> bool {
    |n: Seq<char>| n == name
}

/// A picked weight is never negative and never above the whole.
pub proof fn lemma_weight_bounds(rows: Seq<(String, u64)>, pick: spec_fn(Seq<char>) -> bool)
    ensures
        0 <= weight(rows, pick) <= weight(rows, any_name()),
    decreases rows.len(),
{
    if rows.len() > 0 {
        lemma_weight_bounds(rows.drop_last(), pick);
    }
}

/// One more row adds its count where its name is picked.
pub proof fn lemma_weight_push(
    rows: Seq<(String, u64)>,
    row: (String, u64),
    pick: spec_fn(Seq<char>) -> bool,
)
    ensures
        weight(rows.push(row), pick) == weight(rows, pick) + if pick(row.0@) {
            row.1 as int
        } else {
            0
        },
{
    assert(rows.push(row).drop_last() =~= rows);
}

/// A changed count in one row changes the weight by the difference, where
/// the row's name is picked.
pub proof fn lemma_weight_update(
    rows: Seq<(String, u64)>,
    i: int,
    count: u64,
    pick: spec_fn(Seq<char>) -> bool,
)
    requires
        0 <= i < rows.len(),
    ensures
        weight(rows.update(i, (rows[i].0, count)), pick) == weight(rows, pick) + if pick(
            rows[i].0@,
        ) {
            count - rows[i].1
        } else {
            0
        },
        rows[i].1 <= weight(rows, any_name()),
    decreases rows.len(),
{
    let changed = rows.update(i, (rows[i].0, count));
    lemma_weight_bounds(rows.drop_last(), any_name());
    if i == rows.len() - 1 {
        assert(changed.drop_last() =~= rows.drop_last());
    } else {
        assert(changed.drop_last() =~= rows.drop_last().update(i, (rows[i].0, count)));
        lemma_weight_update(rows.drop_last(), i, count, pick);
    }
}

/// A frequency table. `counted` is the number of counts that the table
/// holds in all.
#[derive(Debug, Clone, PartialEq)]
pub struct Tally {
    pub rows: Vec<(String, u64)>,
    pub counted: u64,
}

impl Tally {
    /// `counted` is the sum of the rows' counts.
    pub open spec fn wf(&self) -> bool {
        self.counted == weight(self.rows@, any_name())
    }

    /// How often `name` was counted.
    pub open spec fn count_of(&self, name: Seq<char>) -> int {
        weight(self.rows@, named(name))
    }

    /// How many counts the table holds in all.
    pub open spec fn total(&self) -> int {
        weight(self.rows@, any_name())
    }

    /// A table in which nothing was counted.
    pub fn new() -> (tally: Tally)
        ensures
            tally.wf(),
            tally.total() == 0,
            forall|name: Seq<char>| #[trigger] tally.count_of(name) == 0,
    {
        Tally { rows: Vec::new(), counted: 0 }
    }

    /// Counts `name` once more, unless the table is full: it holds at most
    /// `u64::MAX` counts. Tells whether it counted.
    pub fn bump(&mut self, name: &str) -> (done: bool)
        requires
            old(self).wf(),
        ensures
            final(self).wf(),
            done == (old(self).total() < u64::MAX),
            !done ==> *final(self) == *old(self),
            done ==> final(self).total() == old(self).total() + 1,
            done ==> forall|other: Seq<char>|
                #[trigger] final(self).count_of(other) == old(self).count_of(other) + if other
                    == name@ {
                    1int
                } else {
                    0int
                },
    {
        if self.counted == u64::MAX {
            return false;
        }
        let ghost before = self.rows@;
        let wanted = String::from_str(name);
        self.counted = self.counted + 1;
        let mut i: usize = 0;
        while i < self.rows.len()
            invariant
                i <= self.rows.len(),
                self.rows@ == before,
                before == old(self).rows@,
                old(self).wf(),
                self.counted == old(self).counted + 1,
                wanted@ == name@,
                weight(before, any_name()) < u64::MAX,
                forall|j: int| 0 <= j < i ==> (#[trigger] before[j]).0@ != name@,
            decreases self.rows.len() - i,
        {
            if self.rows[i].0 == wanted {
                let count: u64 = self.rows[i].1;
                proof {
                    lemma_weight_update(before, i as int, count, any_name());
                    lemma_weight_update(before, i as int, (count + 1) as u64, any_name());
                    assert forall|other: Seq<char>|
                        weight(
                            before.update(i as int, (before[i as int].0, (count + 1) as u64)),
                            named(other),
                        ) == weight(before, named(other)) + if other == name@ {
                            1int
                        } else {
                            0int
                        } by {
                        lemma_weight_update(before, i as int, (count + 1) as u64, named(other));
                    }
                }
                self.rows[i].1 = count + 1;
                assert(self.rows@ =~= before.update(
                    i as int,
                    (before[i as int].0, (count + 1) as u64),
                ));
                return true;
            }
            i += 1;
        }
        proof {
            lemma_weight_push(before, (wanted, 1u64), any_name());
            assert forall|other: Seq<char>|
                weight(before.push((wanted, 1u64)), named(other)) == weight(before, named(other))
                    + if other == name@ {
                    1int
                } else {
                    0int
                } by {
                lemma_weight_push(before, (wanted, 1u64), named(other));
            }
        }
        self.rows.push((wanted, 1));
        true
    }

    /// Reads how often `name` was counted.
    pub fn get(&self, name: &str) -> (count: u64)
        requires
            self.wf(),
        ensures
            count == self.count_of(name@),
    {
        let wanted = String::from_str(name);
        let mut count: u64 = 0;
        let mut i: usize = 0;
        proof {
            lemma_weight_bounds(self.rows@, named(name@));
        }
        while i < self.rows.len()
            invariant
                i <= self.rows.len(),
                wanted@ == name@,
                count == weight(self.rows@.take(i as int), named(name@)),
                weight(self.rows@, named(name@)) <= u64::MAX,
            decreases self.rows.len() - i,
        {
            proof {
                assert(self.rows@.take(i + 1) =~= self.rows@.take(i as int).push(
                    self.rows@[i as int],
                ));
                lemma_weight_push(self.rows@.take(i as int), self.rows@[i as int], named(name@));
                lemma_weight_prefix(self.rows@, i + 1, named(name@));
            }
            if self.rows[i].0 == wanted {
                count = count + self.rows[i].1;
            }
            i += 1;
        }
        assert(self.rows@.take(self.rows@.len() as int) =~= self.rows@);
        count
    }
}

/// The weight of a prefix is at most that of the whole.
pub proof fn lemma_weight_prefix(
    rows: Seq<(String, u64)>,
    n: int,
    pick: spec_fn(Seq<char>) -> bool,
)
    requires
        0 <= n <= rows.len(),
    ensures
        weight(rows.take(n), pick) <= weight(rows, pick),
    decreases rows.len(),
{
    if n == rows.len() {
        assert(rows.take(n) =~= rows);
    } else {
        assert(rows.drop_last().take(n) =~= rows.take(n));
        lemma_weight_prefix(rows.drop_last(), n, pick);
    }
}

} // verus!
