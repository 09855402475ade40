use vstd::prelude::*;
use vstd::string::StringExecFns;

use crate::strutil::str_eq;

verus! {

/// Occurrence counts for the traits of one layer.
pub struct LayerStats {
    /// The layer's display name.
    pub layer: String,
    /// Per trait name, in first-occurrence order: how many accepted
    /// combinations selected a trait of that name.
    pub counts: Vec<(String, usize)>,
}

/// The rarity table: per layer position, per trait name, how many of the
/// collection's combinations selected that trait. A trait's share of the
/// collection is its count over `total`; the division is left to the
/// serializer.
pub struct Rarity {
    pub total: usize,
    pub data: Vec<LayerStats>,
}

/// The count recorded under `name`: the total of the matching entries.
pub open spec fn count_of(counts: Seq<(String, usize)>, name: Seq<char>) -> int
    decreases counts.len(),
{
    if counts.len() == 0 {
        0
    } else {
        count_of(counts.drop_last(), name) + if counts.last().0@ == name {
            counts.last().1 as int
        } else {
            0
        }
    }
}

/// The total of all counts of one layer.
pub open spec fn sum_counts(counts: Seq<(String, usize)>) -> int
    decreases counts.len(),
{
    if counts.len() == 0 {
        0
    } else {
        sum_counts(counts.drop_last()) + counts.last().1
    }
}

/// Each entry key appears once.
pub open spec fn keys_unique(counts: Seq<(String, usize)>) -> bool {
    forall|i: int, j: int|
        0 <= i < j < counts.len() ==> (#[trigger] counts[i]).0@ != (#[trigger] counts[j]).0@
}

proof fn lemma_sum_counts_nonneg(counts: Seq<(String, usize)>)
    ensures
        sum_counts(counts) >= 0,
    decreases counts.len(),
{
    if counts.len() > 0 {
        lemma_sum_counts_nonneg(counts.drop_last());
    }
}

/// No single entry exceeds the layer's total.
proof fn lemma_entry_le_sum(counts: Seq<(String, usize)>, k: int)
    requires
        0 <= k < counts.len(),
    ensures
        counts[k].1 <= sum_counts(counts),
    decreases counts.len(),
{
    if k == counts.len() - 1 {
        lemma_sum_counts_nonneg(counts.drop_last());
    } else {
        lemma_entry_le_sum(counts.drop_last(), k);
    }
}

proof fn lemma_sum_update(counts: Seq<(String, usize)>, k: int, p: (String, usize))
    requires
        0 <= k < counts.len(),
    ensures
        sum_counts(counts.update(k, p)) == sum_counts(counts) - counts[k].1 + p.1,
    decreases counts.len(),
{
    let u = counts.update(k, p);
    if k == counts.len() - 1 {
        assert(u.drop_last() =~= counts.drop_last());
        assert(u.last() == p);
    } else {
        assert(u.drop_last() =~= counts.drop_last().update(k, p));
        assert(u.last() == counts.last());
        lemma_sum_update(counts.drop_last(), k, p);
    }
}

proof fn lemma_count_update(counts: Seq<(String, usize)>, k: int, p: (String, usize), name: Seq<
    char,
>)
    requires
        0 <= k < counts.len(),
    ensures
        count_of(counts.update(k, p), name) == count_of(counts, name) - (
        if counts[k].0@ == name {
            counts[k].1 as int
        } else {
            0
        }) + (
        if p.0@ == name {
            p.1 as int
        } else {
            0
        }),
    decreases counts.len(),
{
    let u = counts.update(k, p);
    if k == counts.len() - 1 {
        assert(u.drop_last() =~= counts.drop_last());
        assert(u.last() == p);
    } else {
        assert(u.drop_last() =~= counts.drop_last().update(k, p));
        assert(u.last() == counts.last());
        lemma_count_update(counts.drop_last(), k, p, name);
    }
}

impl Rarity {
    /// An empty rarity table for a collection of `total` outputs.
    pub fn new(total: usize) -> (r: Rarity)
        ensures
            r.total == total,
            r.data@.len() == 0,
    {
        Rarity { total, data: Vec::new() }
    }

    /// Records one selection: in layer `layer`, a trait named `name` was
    /// selected by one more combination.
    ///
    /// The name's count rises by one (a first occurrence enters at one),
    /// every other name's count and every other layer stand unchanged.
    pub fn count_trait(&mut self, layer: usize, name: &str)
        requires
            layer < old(self).data@.len(),
            sum_counts(old(self).data@[layer as int].counts@) < usize::MAX,
        ensures
            final(self).total == old(self).total,
            final(self).data@.len() == old(self).data@.len(),
            forall|l: int|
                0 <= l < old(self).data@.len() && l != layer ==> final(self).data@[l] == old(
                    self,
                ).data@[l],
            final(self).data@[layer as int].layer == old(self).data@[layer as int].layer,
            count_of(final(self).data@[layer as int].counts@, name@) == count_of(
                old(self).data@[layer as int].counts@,
                name@,
            ) + 1,
            forall|n: Seq<char>|
                n != name@ ==> count_of(#[trigger] final(self).data@[layer as int].counts@, n)
                    == count_of(old(self).data@[layer as int].counts@, n),
            sum_counts(final(self).data@[layer as int].counts@) == sum_counts(
                old(self).data@[layer as int].counts@,
            ) + 1,
            keys_unique(old(self).data@[layer as int].counts@) ==> keys_unique(
                final(self).data@[layer as int].counts@,
            ),
    {
        let stats = &mut self.data[layer];
        let ghost counts0 = stats.counts@;
        let n = stats.counts.len();
        let mut found: Option<usize> = None;
        let mut k: usize = 0;
        while k < n && found.is_none()
            invariant
                stats.counts@ == counts0,
                n == counts0.len(),
                k <= n,
                match found {
                    Some(ki) => ki == k && k < n && counts0[ki as int].0@ == name@,
                    None => forall|j: int| 0 <= j < k ==> (#[trigger] counts0[j]).0@ != name@,
                },
            decreases n - k + (if found is None { 1int } else { 0int }),
        {
            if str_eq(stats.counts[k].0.as_str(), name) {
                found = Some(k);
            } else {
                k += 1;
            }
        }
        match found {
            Some(k) => {
                let key = stats.counts[k].0.clone();
                let c = stats.counts[k].1;
                proof {
                    lemma_entry_le_sum(counts0, k as int);
                    lemma_sum_counts_nonneg(counts0);
                }
                stats.counts[k] = (key, c + 1);
                proof {
                    lemma_sum_update(counts0, k as int, stats.counts@[k as int]);
                    lemma_count_update(counts0, k as int, stats.counts@[k as int], name@);
                    assert forall|m: Seq<char>| m != name@ implies count_of(
                        #[trigger] stats.counts@,
                        m,
                    ) == count_of(counts0, m) by {
                        lemma_count_update(counts0, k as int, stats.counts@[k as int], m);
                    }
                    assert forall|i: int, j: int|
                        keys_unique(counts0) && 0 <= i < j < stats.counts@.len() implies (
                    #[trigger] stats.counts@[i]).0@ != (#[trigger] stats.counts@[j]).0@ by {
                        assert(stats.counts@[i].0@ == counts0[i].0@);
                        assert(stats.counts@[j].0@ == counts0[j].0@);
                    }
                }
            },
            None => {
                // First occurrence of this trait name in the layer.
                stats.counts.push((String::from_str(name), 1));
                proof {
                    assert(stats.counts@.drop_last() =~= counts0);
                    assert(stats.counts@.last().0@ == name@);
                    assert forall|m: Seq<char>| m != name@ implies count_of(
                        #[trigger] stats.counts@,
                        m,
                    ) == count_of(counts0, m) by {}
                    assert forall|i: int, j: int|
                        keys_unique(counts0) && 0 <= i < j < stats.counts@.len() implies (
                    #[trigger] stats.counts@[i]).0@ != (#[trigger] stats.counts@[j]).0@ by {
                        if j < counts0.len() {
                        } else {
                            assert(stats.counts@[j].0@ == name@);
                            assert(counts0[i].0@ != name@);
                        }
                    }
                }
            },
        }
    }
}

} // verus!
