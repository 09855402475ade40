use vstd::prelude::*;

use crate::config::{LayerConfig, SetConfig};
use crate::error::PixError;
use crate::layers::{
    catalog_ready, choice_ok, combo_in_bounds, display_name_of, display_of, forced_by_set,
    total_weight_spec, Layers,
};
use crate::rarity::{count_of, keys_unique, sum_counts, LayerStats, Rarity};

verus! {

/// One completed generation domain: its accepted combinations, the index
/// of the catalog it was generated from, and the numbering offset of its
/// outputs.
#[derive(Debug)]
pub struct GeneratedSet {
    pub uniques: Vec<Vec<usize>>,
    pub set_index: usize,
    pub offset: usize,
}

/// No two accepted combinations hold the same index tuple.
pub open spec fn all_distinct(combos: Seq<Vec<usize>>) -> bool {
    forall|i: int, j: int|
        0 <= i < j < combos.len() ==> (#[trigger] combos[i])@ != (#[trigger] combos[j])@
}

/// A full, rule-respecting combination for the given catalog and set.
pub open spec fn combo_ok(
    layers: Layers,
    cfgs: Seq<LayerConfig>,
    set_name: Seq<char>,
    combo: Vec<usize>,
) -> bool {
    &&& combo@.len() == layers.traits().len()
    &&& forall|l: int| 0 <= l < combo@.len() ==> choice_ok(layers, cfgs, set_name, combo@, l)
}

/// Whether two combinations hold the same index tuple.
fn combos_equal(a: &Vec<usize>, b: &Vec<usize>) -> (r: bool)
    ensures
        r == (a@ == b@),
{
    if a.len() != b.len() {
        return false;
    }
    let mut i: usize = 0;
    while i < a.len()
        invariant
            i <= a@.len(),
            a@.len() == b@.len(),
            forall|j: int| 0 <= j < i ==> a@[j] == b@[j],
        decreases a@.len() - i,
    {
        if a[i] != b[i] {
            return false;
        }
        i += 1;
    }
    proof {
        assert(a@ =~= b@);
    }
    true
}

/// Whether the accepted set already holds this combination.
fn contains_combo(uniques: &Vec<Vec<usize>>, combo: &Vec<usize>) -> (r: bool)
    ensures
        r == (exists|i: int| 0 <= i < uniques@.len() && (#[trigger] uniques@[i])@ == combo@),
{
    let mut i: usize = 0;
    while i < uniques.len()
        invariant
            i <= uniques@.len(),
            forall|j: int| 0 <= j < i ==> (#[trigger] uniques@[j])@ != combo@,
        decreases uniques@.len() - i,
    {
        if combos_equal(&uniques[i], combo) {
            return true;
        }
        i += 1;
    }
    false
}

/// Fills one generation domain: draws combinations until `amount` unique
/// ones are accepted, or until more than `tolerance` duplicate draws have
/// been rejected over the whole run of the domain.
///
/// On success the accepted set holds exactly `amount` pairwise-distinct
/// combinations, each respecting the exclusion rules. The failure
/// carries the domain's requested amount; nothing is kept of a failed
/// domain.
pub fn create_unique_set(
    layers: &Layers,
    cfgs: &Vec<LayerConfig>,
    set_name: &str,
    amount: usize,
    tolerance: usize,
) -> (r: Result<Vec<Vec<usize>>, PixError>)
    requires
        catalog_ready(*layers, cfgs@),
    ensures
        match r {
            Ok(uniques) => {
                &&& uniques@.len() == amount
                &&& all_distinct(uniques@)
                &&& forall|i: int|
                    0 <= i < uniques@.len() ==> combo_ok(
                        *layers,
                        cfgs@,
                        set_name@,
                        #[trigger] uniques@[i],
                    )
            },
            Err(e) => {
                &&& e is Exhausted || e is ZeroWeightSum
                &&& e is Exhausted ==> e->Exhausted_0 == amount
                &&& e is ZeroWeightSum ==> exists|l: int|
                    0 <= l < cfgs@.len() && !forced_by_set(
                        #[trigger] cfgs@[l],
                        set_name@,
                    ) && total_weight_spec(layers.traits()[l]) == 0
            },
        },
        amount == 0 ==> r is Ok,
{
    let mut uniques: Vec<Vec<usize>> = Vec::new();
    let mut fail_count: usize = 0;
    let mut count: usize = 0;
    while count < amount
        invariant
            catalog_ready(*layers, cfgs@),
            uniques@.len() == count,
            count <= amount,
            fail_count <= tolerance,
            all_distinct(uniques@),
            forall|i: int|
                0 <= i < uniques@.len() ==> combo_ok(
                    *layers,
                    cfgs@,
                    set_name@,
                    #[trigger] uniques@[i],
                ),
        decreases amount - count + tolerance - fail_count,
    {
        match layers.create_unique(cfgs, set_name) {
            Err(e) => {
                return Err(e);
            },
            Ok(combo) => {
                if contains_combo(&uniques, &combo) {
                    if fail_count >= tolerance {
                        return Err(PixError::Exhausted(amount));
                    }
                    fail_count += 1;
                } else {
                    let ghost before = uniques@;
                    uniques.push(combo);
                    proof {
                        assert forall|i: int, j: int| 0 <= i < j < uniques@.len() implies (
                        #[trigger] uniques@[i])@ != (#[trigger] uniques@[j])@ by {
                            if j < before.len() {
                                assert(before[i]@ != before[j]@);
                            } else {
                                assert(uniques@[j] == combo);
                                assert(before[i]@ != combo@);
                            }
                        }
                    }
                    count += 1;
                }
            },
        }
    }
    Ok(uniques)
}

/// The sum of the declared set amounts.
pub open spec fn sum_amounts(sets: Seq<SetConfig>) -> int
    decreases sets.len(),
{
    if sets.len() == 0 {
        0
    } else {
        sum_amounts(sets.drop_last()) + sets.last().amount
    }
}

/// The sum of the first `k` set amounts.
pub open spec fn prefix_amounts(sets: Seq<SetConfig>, k: int) -> int {
    sum_amounts(sets.subrange(0, k))
}

proof fn lemma_prefix_amounts_step(sets: Seq<SetConfig>, k: int)
    requires
        0 <= k < sets.len(),
    ensures
        prefix_amounts(sets, k + 1) == prefix_amounts(sets, k) + sets[k].amount,
{
    let p = sets.subrange(0, k + 1);
    assert(p.drop_last() =~= sets.subrange(0, k));
}

proof fn lemma_prefix_amounts_mono(sets: Seq<SetConfig>, j: int, k: int)
    requires
        0 <= j <= k <= sets.len(),
    ensures
        prefix_amounts(sets, j) <= prefix_amounts(sets, k),
    decreases k - j,
{
    if j < k {
        lemma_prefix_amounts_step(sets, k - 1);
        lemma_prefix_amounts_mono(sets, j, k - 1);
    }
}

/// Checks that the set amounts add up to the total amount.
fn check_amounts(sets: &Vec<SetConfig>, total_amount: usize) -> (r: bool)
    ensures
        r == (sum_amounts(sets@) == total_amount as int),
{
    let mut acc: usize = 0;
    let mut s: usize = 0;
    while s < sets.len()
        invariant
            s <= sets@.len(),
            acc as int == prefix_amounts(sets@, s as int),
            acc <= total_amount,
        decreases sets@.len() - s,
    {
        proof {
            lemma_prefix_amounts_step(sets@, s as int);
        }
        let a = sets[s].amount;
        if a > total_amount - acc {
            proof {
                lemma_prefix_amounts_mono(sets@, s as int + 1, sets@.len() as int);
                assert(sets@.subrange(0, sets@.len() as int) =~= sets@);
            }
            return false;
        }
        acc = acc + a;
        s += 1;
    }
    proof {
        assert(sets@.subrange(0, sets@.len() as int) =~= sets@);
    }
    acc == total_amount
}

/// Runs every generation domain to completion, in declaration order.
///
/// The declared set amounts must add up to the total amount before any
/// sampling begins. Each domain is generated independently against its
/// own catalog; domain `s` numbers its outputs from an offset equal to
/// the total amount minus the amounts of the sets up to and including
/// `s`. Nothing is rendered or written here: a failed domain aborts the
/// whole run before any output exists.
pub fn generate_sets(
    layer_sets: &Vec<Layers>,
    cfgs: &Vec<LayerConfig>,
    sets: &Vec<SetConfig>,
    total_amount: usize,
    tolerance: usize,
) -> (r: Result<Vec<GeneratedSet>, PixError>)
    requires
        layer_sets@.len() == sets@.len(),
        forall|s: int|
            0 <= s < layer_sets@.len() ==> catalog_ready(#[trigger] layer_sets@[s], cfgs@),
    ensures
        match r {
            Ok(gens) => {
                &&& sum_amounts(sets@) == total_amount as int
                &&& gens@.len() == sets@.len()
                &&& forall|s: int|
                    0 <= s < gens@.len() ==> {
                        let g = #[trigger] gens@[s];
                        &&& g.set_index == s
                        &&& g.offset == total_amount - prefix_amounts(sets@, s + 1)
                        &&& g.uniques@.len() == sets@[s].amount
                        &&& all_distinct(g.uniques@)
                        &&& forall|i: int|
                            0 <= i < g.uniques@.len() ==> combo_ok(
                                layer_sets@[s],
                                cfgs@,
                                sets@[s].name@,
                                #[trigger] g.uniques@[i],
                            )
                    }
            },
            Err(e) => {
                &&& e is SetAmountMismatch || e is Exhausted || e is ZeroWeightSum
                &&& e is SetAmountMismatch <==> sum_amounts(sets@) != total_amount as int
                &&& e matches PixError::Exhausted(a) ==> exists|s: int|
                    0 <= s < sets@.len() && a == (#[trigger] sets@[s]).amount
                &&& e is ZeroWeightSum ==> exists|s: int, l: int|
                    #![trigger layer_sets@[s].traits()[l]]
                    0 <= s < sets@.len() && 0 <= l < cfgs@.len() && !forced_by_set(
                        cfgs@[l],
                        sets@[s].name@,
                    ) && total_weight_spec(layer_sets@[s].traits()[l]) == 0
            },
        },
{
    if !check_amounts(sets, total_amount) {
        return Err(PixError::SetAmountMismatch);
    }
    let mut gens: Vec<GeneratedSet> = Vec::new();
    let mut offset: usize = total_amount;
    let mut s: usize = 0;
    while s < sets.len()
        invariant
            layer_sets@.len() == sets@.len(),
            forall|s2: int|
                0 <= s2 < layer_sets@.len() ==> catalog_ready(#[trigger] layer_sets@[s2], cfgs@),
            sum_amounts(sets@) == total_amount as int,
            s <= sets@.len(),
            offset as int == total_amount - prefix_amounts(sets@, s as int),
            gens@.len() == s,
            forall|s2: int|
                0 <= s2 < gens@.len() ==> {
                    let g = #[trigger] gens@[s2];
                    &&& g.set_index == s2
                    &&& g.offset == total_amount - prefix_amounts(sets@, s2 + 1)
                    &&& g.uniques@.len() == sets@[s2].amount
                    &&& all_distinct(g.uniques@)
                    &&& forall|i: int|
                        0 <= i < g.uniques@.len() ==> combo_ok(
                            layer_sets@[s2],
                            cfgs@,
                            sets@[s2].name@,
                            #[trigger] g.uniques@[i],
                        )
                },
        decreases sets@.len() - s,
    {
        let set = &sets[s];
        let uniques = match create_unique_set(
            &layer_sets[s],
            cfgs,
            set.name.as_str(),
            set.amount,
            tolerance,
        ) {
            Ok(u) => u,
            Err(e) => {
                assert(!(e is SetAmountMismatch));
                return Err(e);
            },
        };
        proof {
            lemma_prefix_amounts_step(sets@, s as int);
            lemma_prefix_amounts_mono(sets@, s as int + 1, sets@.len() as int);
            assert(sets@.subrange(0, sets@.len() as int) =~= sets@);
        }
        offset = offset - set.amount;
        gens.push(GeneratedSet { uniques, set_index: s, offset });
        s += 1;
    }
    Ok(gens)
}

/// How many combinations the completed domains hold together.
pub open spec fn total_combos(gens: Seq<GeneratedSet>) -> int
    decreases gens.len(),
{
    if gens.len() == 0 {
        0
    } else {
        total_combos(gens.drop_last()) + gens.last().uniques@.len()
    }
}

/// How many combinations the first `k` domains hold.
pub open spec fn combos_before(gens: Seq<GeneratedSet>, k: int) -> int {
    total_combos(gens.subrange(0, k))
}

proof fn lemma_combos_before_step(gens: Seq<GeneratedSet>, k: int)
    requires
        0 <= k < gens.len(),
    ensures
        combos_before(gens, k + 1) == combos_before(gens, k) + gens[k].uniques@.len(),
{
    let p = gens.subrange(0, k + 1);
    assert(p.drop_last() =~= gens.subrange(0, k));
}

proof fn lemma_combos_before_mono(gens: Seq<GeneratedSet>, j: int, k: int)
    requires
        0 <= j <= k <= gens.len(),
    ensures
        combos_before(gens, j) <= combos_before(gens, k),
    decreases k - j,
{
    if j < k {
        lemma_combos_before_step(gens, k - 1);
        lemma_combos_before_mono(gens, j, k - 1);
    }
}

/// Every domain indexes an existing catalog, and every accepted
/// combination indexes properly into it.
pub open spec fn gens_in_bounds(
    layer_sets: Seq<Layers>,
    cfgs: Seq<LayerConfig>,
    gens: Seq<GeneratedSet>,
) -> bool {
    forall|g: int|
        0 <= g < gens.len() ==> {
            let gg = #[trigger] gens[g];
            &&& gg.set_index < layer_sets.len()
            &&& forall|i: int|
                0 <= i < gg.uniques@.len() ==> combo_in_bounds(
                    layer_sets[gg.set_index as int],
                    cfgs,
                    (#[trigger] gg.uniques@[i])@,
                )
        }
}

/// How many of a domain's combinations select a trait named `n` at
/// layer `l`.
pub open spec fn name_count_in(
    layers: Layers,
    uniques: Seq<Vec<usize>>,
    l: int,
    n: Seq<char>,
) -> int
    decreases uniques.len(),
{
    if uniques.len() == 0 {
        0
    } else {
        name_count_in(layers, uniques.drop_last(), l, n) + (
        if layers.traits()[l][uniques.last()@[l] as int].name@ == n {
            1int
        } else {
            0int
        })
    }
}

/// How many accepted combinations, across all domains, select a trait
/// named `n` at layer `l`.
pub open spec fn name_count(
    layer_sets: Seq<Layers>,
    gens: Seq<GeneratedSet>,
    l: int,
    n: Seq<char>,
) -> int
    decreases gens.len(),
{
    if gens.len() == 0 {
        0
    } else {
        name_count(layer_sets, gens.drop_last(), l, n) + name_count_in(
            layer_sets[gens.last().set_index as int],
            gens.last().uniques@,
            l,
            n,
        )
    }
}

/// Accounts every accepted combination of every completed domain into
/// one aggregate rarity table.
///
/// Each layer's count under a trait name is exactly the number of
/// accepted combinations whose selected trait at that layer carries that
/// name; so every layer's counts add up to the number of combinations
/// accounted — with completed domains, the total configured amount.
pub fn build_rarity(
    layer_sets: &Vec<Layers>,
    cfgs: &Vec<LayerConfig>,
    gens: &Vec<GeneratedSet>,
    total: usize,
) -> (r: Rarity)
    requires
        gens_in_bounds(layer_sets@, cfgs@, gens@),
        total_combos(gens@) <= usize::MAX,
    ensures
        r.total == total,
        r.data@.len() == cfgs@.len(),
        forall|l: int|
            0 <= l < cfgs@.len() ==> {
                let stats = #[trigger] r.data@[l];
                &&& stats.layer@ == display_of(cfgs@[l])
                &&& sum_counts(stats.counts@) == total_combos(gens@)
                &&& keys_unique(stats.counts@)
            },
        forall|l: int, n: Seq<char>|
            #![trigger count_of(r.data@[l].counts@, n)]
            0 <= l < cfgs@.len() ==> count_of(r.data@[l].counts@, n) == name_count(
                layer_sets@,
                gens@,
                l,
                n,
            ),
{
    let mut rarity = Rarity::new(total);
    let mut l: usize = 0;
    while l < cfgs.len()
        invariant
            rarity.total == total,
            rarity.data@.len() == l,
            l <= cfgs@.len(),
            forall|l2: int|
                0 <= l2 < l ==> {
                    let stats = #[trigger] rarity.data@[l2];
                    &&& stats.layer@ == display_of(cfgs@[l2])
                    &&& stats.counts@.len() == 0
                },
        decreases cfgs@.len() - l,
    {
        rarity.data.push(LayerStats { layer: display_name_of(&cfgs[l]), counts: Vec::new() });
        l += 1;
    }
    proof {
        assert(gens@.subrange(0, 0) =~= Seq::<GeneratedSet>::empty());
        assert forall|l3: int, n: Seq<char>|
            #![trigger count_of(rarity.data@[l3].counts@, n)]
            0 <= l3 < cfgs@.len() implies count_of(rarity.data@[l3].counts@, n) == 0 by {
            assert(rarity.data@[l3].counts@.len() == 0);
        }
    }
    let mut g: usize = 0;
    while g < gens.len()
        invariant
            gens_in_bounds(layer_sets@, cfgs@, gens@),
            total_combos(gens@) <= usize::MAX,
            g <= gens@.len(),
            rarity.total == total,
            rarity.data@.len() == cfgs@.len(),
            forall|l2: int|
                0 <= l2 < cfgs@.len() ==> {
                    let stats = #[trigger] rarity.data@[l2];
                    &&& stats.layer@ == display_of(cfgs@[l2])
                    &&& sum_counts(stats.counts@) == combos_before(gens@, g as int)
                    &&& keys_unique(stats.counts@)
                },
            forall|l2: int, n: Seq<char>|
                #![trigger count_of(rarity.data@[l2].counts@, n)]
                0 <= l2 < cfgs@.len() ==> count_of(rarity.data@[l2].counts@, n) == name_count(
                    layer_sets@,
                    gens@.subrange(0, g as int),
                    l2,
                    n,
                ),
        decreases gens@.len() - g,
    {
        let gen = &gens[g];
        let layers = &layer_sets[gen.set_index];
        let mut i: usize = 0;
        proof {
            lemma_combos_before_step(gens@, g as int);
            lemma_combos_before_mono(gens@, g as int + 1, gens@.len() as int);
            assert(gens@.subrange(0, gens@.len() as int) =~= gens@);
            assert(gen.uniques@.subrange(0, 0) =~= Seq::<Vec<usize>>::empty());
        }
        while i < gen.uniques.len()
            invariant
                gens_in_bounds(layer_sets@, cfgs@, gens@),
                g < gens@.len(),
                *gen == gens@[g as int],
                *layers == layer_sets@[gen.set_index as int],
                i <= gen.uniques@.len(),
                combos_before(gens@, g as int) + gen.uniques@.len() <= total_combos(gens@),
                total_combos(gens@) <= usize::MAX,
                rarity.total == total,
                rarity.data@.len() == cfgs@.len(),
                forall|l2: int|
                    0 <= l2 < cfgs@.len() ==> {
                        let stats = #[trigger] rarity.data@[l2];
                        &&& stats.layer@ == display_of(cfgs@[l2])
                        &&& sum_counts(stats.counts@) == combos_before(gens@, g as int) + i
                        &&& keys_unique(stats.counts@)
                    },
                forall|l2: int, n: Seq<char>|
                    #![trigger count_of(rarity.data@[l2].counts@, n)]
                    0 <= l2 < cfgs@.len() ==> count_of(rarity.data@[l2].counts@, n) == name_count(
                        layer_sets@,
                        gens@.subrange(0, g as int),
                        l2,
                        n,
                    ) + name_count_in(*layers, gen.uniques@.subrange(0, i as int), l2, n),
            decreases gen.uniques@.len() - i,
        {
            let combo = &gen.uniques[i];
            assert(combo_in_bounds(*layers, cfgs@, combo@));
            let ghost base = combos_before(gens@, g as int) + i;
            let ghost base_count = |l3: int, n: Seq<char>|
                name_count(layer_sets@, gens@.subrange(0, g as int), l3, n) + name_count_in(
                    *layers,
                    gen.uniques@.subrange(0, i as int),
                    l3,
                    n,
                );
            let mut l2: usize = 0;
            while l2 < combo.len()
                invariant
                    *combo == gen.uniques@[i as int],
                    combo_in_bounds(*layers, cfgs@, combo@),
                    *layers == layer_sets@[gen.set_index as int],
                    l2 <= combo@.len(),
                    combo@.len() == cfgs@.len(),
                    base < usize::MAX,
                    rarity.total == total,
                    rarity.data@.len() == cfgs@.len(),
                    base_count == (|l3: int, n: Seq<char>|
                        name_count(layer_sets@, gens@.subrange(0, g as int), l3, n)
                            + name_count_in(
                            *layers,
                            gen.uniques@.subrange(0, i as int),
                            l3,
                            n,
                        )),
                    forall|l3: int|
                        0 <= l3 < cfgs@.len() ==> {
                            let stats = #[trigger] rarity.data@[l3];
                            &&& stats.layer@ == display_of(cfgs@[l3])
                            &&& sum_counts(stats.counts@) == base + (
                            if l3 < l2 {
                                1int
                            } else {
                                0int
                            })
                            &&& keys_unique(stats.counts@)
                        },
                    forall|l3: int, n: Seq<char>|
                        #![trigger count_of(rarity.data@[l3].counts@, n)]
                        0 <= l3 < cfgs@.len() ==> count_of(rarity.data@[l3].counts@, n)
                            == base_count(l3, n) + (
                        if l3 < l2 && layers.traits()[l3][combo@[l3] as int].name@ == n {
                            1int
                        } else {
                            0int
                        }),
                decreases combo@.len() - l2,
            {
                assert(combo@[l2 as int] < layers.traits()[l2 as int].len());
                assert(layers.traits()[l2 as int] == layers.data@[l2 as int]@);
                let tr = &layers.data[l2][combo[l2]];
                let ghost before = rarity.data@;
                let ghost sel = layers.traits()[l2 as int][combo@[l2 as int] as int].name@;
                assert(tr.name@ == sel);
                rarity.count_trait(l2, tr.name.as_str());
                proof {
                    assert forall|l3: int, n: Seq<char>|
                        #![trigger count_of(rarity.data@[l3].counts@, n)]
                        0 <= l3 < cfgs@.len() implies count_of(rarity.data@[l3].counts@, n)
                            == base_count(l3, n) + (
                    if l3 < l2 + 1 && layers.traits()[l3][combo@[l3] as int].name@ == n {
                        1int
                    } else {
                        0int
                    }) by {
                        if l3 == l2 as int {
                            if n != sel {
                                assert(count_of(rarity.data@[l3].counts@, n) == count_of(
                                    before[l3].counts@,
                                    n,
                                ));
                            }
                        } else {
                            assert(rarity.data@[l3] == before[l3]);
                        }
                    }
                }
                l2 += 1;
            }
            proof {
                let p = gen.uniques@.subrange(0, i as int + 1);
                assert(p.drop_last() =~= gen.uniques@.subrange(0, i as int));
                assert(p.last() == gen.uniques@[i as int]);
                assert forall|l3: int, n: Seq<char>|
                    #![trigger count_of(rarity.data@[l3].counts@, n)]
                    0 <= l3 < cfgs@.len() implies count_of(rarity.data@[l3].counts@, n)
                        == name_count(layer_sets@, gens@.subrange(0, g as int), l3, n)
                        + name_count_in(
                        *layers,
                        gen.uniques@.subrange(0, i as int + 1),
                        l3,
                        n,
                    ) by {
                    assert(count_of(rarity.data@[l3].counts@, n) == base_count(l3, n) + (
                    if layers.traits()[l3][combo@[l3] as int].name@ == n {
                        1int
                    } else {
                        0int
                    }));
                    assert(name_count_in(*layers, p, l3, n) == name_count_in(
                        *layers,
                        gen.uniques@.subrange(0, i as int),
                        l3,
                        n,
                    ) + (
                    if layers.traits()[l3][p.last()@[l3] as int].name@ == n {
                        1int
                    } else {
                        0int
                    }));
                }
            }
            i += 1;
        }
        proof {
            let pg = gens@.subrange(0, g as int + 1);
            assert(pg.drop_last() =~= gens@.subrange(0, g as int));
            assert(pg.last() == gens@[g as int]);
            assert(gen.uniques@.subrange(0, gen.uniques@.len() as int) =~= gen.uniques@);
            assert forall|l3: int, n: Seq<char>|
                #![trigger count_of(rarity.data@[l3].counts@, n)]
                0 <= l3 < cfgs@.len() implies count_of(rarity.data@[l3].counts@, n) == name_count(
                    layer_sets@,
                    gens@.subrange(0, g as int + 1),
                    l3,
                    n,
                ) by {
                assert(name_count(layer_sets@, pg, l3, n) == name_count(
                    layer_sets@,
                    gens@.subrange(0, g as int),
                    l3,
                    n,
                ) + name_count_in(
                    layer_sets@[pg.last().set_index as int],
                    pg.last().uniques@,
                    l3,
                    n,
                ));
            }
        }
        g += 1;
    }
    proof {
        assert(gens@.subrange(0, gens@.len() as int) =~= gens@);
    }
    rarity
}

/// With every domain holding exactly its declared amount, the domains
/// together hold the declared total.
proof fn lemma_total_combos_eq(gens: Seq<GeneratedSet>, sets: Seq<SetConfig>)
    requires
        gens.len() == sets.len(),
        forall|s: int|
            0 <= s < gens.len() ==> (#[trigger] gens[s]).uniques@.len() == sets[s].amount,
    ensures
        total_combos(gens) == sum_amounts(sets),
    decreases gens.len(),
{
    if gens.len() > 0 {
        assert forall|s: int|
            0 <= s < gens.drop_last().len() implies (#[trigger] gens.drop_last()[s]).uniques@.len()
            == sets.drop_last()[s].amount by {
            assert(gens.drop_last()[s] == gens[s]);
        }
        lemma_total_combos_eq(gens.drop_last(), sets.drop_last());
    }
}

/// The fully generated collection: every domain's accepted combinations
/// and the aggregate rarity table.
pub struct GeneratedCollection {
    pub sets: Vec<GeneratedSet>,
    pub rarity: Rarity,
}

/// Runs the whole generation phase: validates the set amounts, fills
/// every domain, and accounts the rarity table — all before anything is
/// rendered or written.
///
/// On success: every domain holds exactly its declared amount of
/// pairwise-distinct, rule-respecting combinations, and every layer's
/// rarity counts add up to exactly the total configured amount.
pub fn generate_collection(
    layer_sets: &Vec<Layers>,
    cfgs: &Vec<LayerConfig>,
    sets: &Vec<SetConfig>,
    total_amount: usize,
    tolerance: usize,
) -> (r: Result<GeneratedCollection, PixError>)
    requires
        layer_sets@.len() == sets@.len(),
        forall|s: int|
            0 <= s < layer_sets@.len() ==> catalog_ready(#[trigger] layer_sets@[s], cfgs@),
    ensures
        match r {
            Ok(col) => {
                &&& sum_amounts(sets@) == total_amount as int
                &&& col.sets@.len() == sets@.len()
                &&& forall|s: int|
                    0 <= s < col.sets@.len() ==> {
                        let g = #[trigger] col.sets@[s];
                        &&& g.set_index == s
                        &&& g.offset == total_amount - prefix_amounts(sets@, s + 1)
                        &&& g.uniques@.len() == sets@[s].amount
                        &&& all_distinct(g.uniques@)
                        &&& forall|i: int|
                            0 <= i < g.uniques@.len() ==> combo_ok(
                                layer_sets@[s],
                                cfgs@,
                                sets@[s].name@,
                                #[trigger] g.uniques@[i],
                            )
                    }
                &&& col.rarity.total == total_amount
                &&& col.rarity.data@.len() == cfgs@.len()
                &&& forall|l: int|
                    0 <= l < cfgs@.len() ==> {
                        let stats = #[trigger] col.rarity.data@[l];
                        &&& stats.layer@ == display_of(cfgs@[l])
                        &&& sum_counts(stats.counts@) == total_amount
                        &&& keys_unique(stats.counts@)
                    }
                &&& forall|l: int, n: Seq<char>|
                    #![trigger count_of(col.rarity.data@[l].counts@, n)]
                    0 <= l < cfgs@.len() ==> count_of(col.rarity.data@[l].counts@, n)
                        == name_count(layer_sets@, col.sets@, l, n)
            },
            Err(e) => {
                &&& e is SetAmountMismatch || e is Exhausted || e is ZeroWeightSum
                &&& e is SetAmountMismatch <==> sum_amounts(sets@) != total_amount as int
                &&& e matches PixError::Exhausted(a) ==> exists|s: int|
                    0 <= s < sets@.len() && a == (#[trigger] sets@[s]).amount
                &&& e is ZeroWeightSum ==> exists|s: int, l: int|
                    #![trigger layer_sets@[s].traits()[l]]
                    0 <= s < sets@.len() && 0 <= l < cfgs@.len() && !forced_by_set(
                        cfgs@[l],
                        sets@[s].name@,
                    ) && total_weight_spec(layer_sets@[s].traits()[l]) == 0
            },
        },
{
    let gens = match generate_sets(layer_sets, cfgs, sets, total_amount, tolerance) {
        Ok(g) => g,
        Err(e) => {
            return Err(e);
        },
    };
    proof {
        assert forall|g: int| 0 <= g < gens@.len() implies {
            let gg = #[trigger] gens@[g];
            &&& gg.set_index < layer_sets@.len()
            &&& forall|i: int|
                0 <= i < gg.uniques@.len() ==> combo_in_bounds(
                    layer_sets@[gg.set_index as int],
                    cfgs@,
                    (#[trigger] gg.uniques@[i])@,
                )
        } by {
            let gg = gens@[g];
            assert(gg.set_index == g);
            assert forall|i: int| 0 <= i < gg.uniques@.len() implies combo_in_bounds(
                layer_sets@[gg.set_index as int],
                cfgs@,
                (#[trigger] gg.uniques@[i])@,
            ) by {
                let combo = gg.uniques@[i];
                assert(combo_ok(layer_sets@[g], cfgs@, sets@[g].name@, combo));
                assert(catalog_ready(layer_sets@[g], cfgs@));
                assert forall|l: int| 0 <= l < combo@.len() implies combo@[l] < (
                #[trigger] layer_sets@[g].traits()[l]).len() by {
                    assert(choice_ok(layer_sets@[g], cfgs@, sets@[g].name@, combo@, l));
                }
            }
        }
        assert forall|s: int|
            0 <= s < gens@.len() implies (#[trigger] gens@[s]).uniques@.len()
            == sets@[s].amount by {}
        lemma_total_combos_eq(gens@, sets@);
    }
    let rarity = build_rarity(layer_sets, cfgs, &gens, total_amount);
    Ok(GeneratedCollection { sets: gens, rarity })
}

} // verus!
