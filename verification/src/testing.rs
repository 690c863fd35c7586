//! Comparing what several nodes hold, to tell when they agree.

use std::collections::BTreeSet;
use vstd::prelude::*;
use vstd::std_specs::btree::spec_btree_set_len;

verus! {

/// How the sets of operations that several nodes hold differ: for each
/// pair of nodes whose sets differ, the later node first, the difference
/// of the sizes of their sets.
#[derive(Debug)]
pub struct ConsistencyReport {
    pub sets: Vec<BTreeSet<String>>,
    pub diffs: Vec<((usize, usize), isize)>,
}

/// `BTreeSet`'s `==`: whether two sets hold the same texts.
#[verifier::external_body]
fn same_set(a: &BTreeSet<String>, b: &BTreeSet<String>) -> (r: bool)
    ensures
        r == (a@ == b@),
{
    a == b
}

/// The distance between two sizes, as far as an `isize` can hold it.
pub open spec fn distance(a: int, b: int) -> int {
    let d = if a >= b {
        a - b
    } else {
        b - a
    };
    if d > isize::MAX {
        isize::MAX as int
    } else {
        d
    }
}

/// The pairs of nodes up to node `i` and, for node `i`, up to node `j`, the
/// later node first.
pub open spec fn before_pair(a: int, b: int, i: int, j: int) -> bool {
    0 <= b < a && (a < i || (a == i && b < j))
}

impl ConsistencyReport {
    /// A report on the sets that finds no difference yet.
    pub fn new(sets: Vec<BTreeSet<String>>) -> (r: Self)
        ensures
            r.sets == sets,
            r.diffs@.len() == 0,
    {
        ConsistencyReport { sets, diffs: Vec::new() }
    }

    /// Whether the report holds the difference of a pair of nodes.
    pub open spec fn reports(&self, a: int, b: int) -> bool {
        exists|k: int|
            0 <= k < self.diffs@.len() && (#[trigger] self.diffs@[k]).0 == (a as usize, b as usize)
                && self.diffs@[k].1 == distance(
                spec_btree_set_len(&self.sets@[a]) as int,
                spec_btree_set_len(&self.sets@[b]) as int,
            )
    }

    /// Compares the sets pair by pair. The nodes agree where no pair
    /// differs; otherwise the report comes back with the difference of each
    /// pair that differs.
    pub fn check(sets: Vec<BTreeSet<String>>) -> (r: Result<(), Self>)
        ensures
            r is Ok <==> forall|a: int, b: int|
                0 <= b < a < sets@.len() ==> (#[trigger] sets@[a])@ == (#[trigger] sets@[b])@,
            r matches Err(report) ==> {
                &&& report.sets == sets
                &&& forall|k: int|
                    0 <= k < report.diffs@.len() ==> {
                        let pair = (#[trigger] report.diffs@[k]).0;
                        &&& pair.1 < pair.0 < sets@.len()
                        &&& sets@[pair.0 as int]@ != sets@[pair.1 as int]@
                        &&& report.diffs@[k].1 == distance(
                            spec_btree_set_len(&sets@[pair.0 as int]) as int,
                            spec_btree_set_len(&sets@[pair.1 as int]) as int,
                        )
                    }
                &&& forall|a: int, b: int|
                    0 <= b < a < sets@.len() && (#[trigger] sets@[a])@ != (#[trigger] sets@[b])@
                        ==> report.reports(a, b)
            },
    {
        let mut report = ConsistencyReport::new(sets);
        let n = report.sets.len();
        let mut i: usize = 0;
        while i < n
            invariant
                report.sets == sets,
                n == sets@.len(),
                i <= n,
                forall|k: int|
                    0 <= k < report.diffs@.len() ==> {
                        let pair = (#[trigger] report.diffs@[k]).0;
                        &&& pair.1 < pair.0 < sets@.len()
                        &&& sets@[pair.0 as int]@ != sets@[pair.1 as int]@
                        &&& report.diffs@[k].1 == distance(
                            spec_btree_set_len(&sets@[pair.0 as int]) as int,
                            spec_btree_set_len(&sets@[pair.1 as int]) as int,
                        )
                    },
                forall|a: int, b: int|
                    before_pair(a, b, i as int, 0) && (#[trigger] sets@[a])@ != (
                    #[trigger] sets@[b])@ ==> report.reports(a, b),
                report.diffs@.len() == 0 ==> forall|a: int, b: int|
                    before_pair(a, b, i as int, 0) ==> (#[trigger] sets@[a])@ == (
                    #[trigger] sets@[b])@,
            decreases n - i,
        {
            let mut j: usize = 0;
            while j < i
                invariant
                    report.sets == sets,
                    n == sets@.len(),
                    i < n,
                    j <= i,
                    forall|k: int|
                        0 <= k < report.diffs@.len() ==> {
                            let pair = (#[trigger] report.diffs@[k]).0;
                            &&& pair.1 < pair.0 < sets@.len()
                            &&& sets@[pair.0 as int]@ != sets@[pair.1 as int]@
                            &&& report.diffs@[k].1 == distance(
                                spec_btree_set_len(&sets@[pair.0 as int]) as int,
                                spec_btree_set_len(&sets@[pair.1 as int]) as int,
                            )
                        },
                    forall|a: int, b: int|
                        before_pair(a, b, i as int, j as int) && (#[trigger] sets@[a])@ != (
                        #[trigger] sets@[b])@ ==> report.reports(a, b),
                    report.diffs@.len() == 0 ==> forall|a: int, b: int|
                        before_pair(a, b, i as int, j as int) ==> (#[trigger] sets@[a])@ == (
                        #[trigger] sets@[b])@,
                decreases i - j,
            {
                if !same_set(&report.sets[i], &report.sets[j]) {
                    let a = report.sets[i].len();
                    let b = report.sets[j].len();
                    let d = if a >= b {
                        a - b
                    } else {
                        b - a
                    };
                    let diff: isize = if d > isize::MAX as usize {
                        isize::MAX
                    } else {
                        d as isize
                    };
                    let ghost earlier = report;
                    report.diffs.push(((i, j), diff));
                    proof {
                        let last = earlier.diffs@.len() as int;
                        assert(report.diffs@[last] == ((i, j), diff));
                        assert(report.reports(i as int, j as int));
                        assert forall|x: int, y: int|
                            before_pair(x, y, i as int, j as int) && (#[trigger] sets@[x])@ != (
                            #[trigger] sets@[y])@ implies report.reports(x, y) by {
                            assert(earlier.reports(x, y));
                            let k = choose|k: int|
                                0 <= k < earlier.diffs@.len() && (#[trigger] earlier.diffs@[k]).0 == (
                                    x as usize,
                                    y as usize,
                                ) && earlier.diffs@[k].1 == distance(
                                    spec_btree_set_len(&earlier.sets@[x]) as int,
                                    spec_btree_set_len(&earlier.sets@[y]) as int,
                                );
                            assert(report.diffs@[k] == earlier.diffs@[k]);
                        }
                    }
                }
                j += 1;
            }
            i += 1;
        }
        if report.diffs.len() == 0 {
            Ok(())
        } else {
            proof {
                let pair = report.diffs@[0].0;
                assert(sets@[pair.0 as int]@ != sets@[pair.1 as int]@);
            }
            Err(report)
        }
    }
}

} // verus!
