use vstd::prelude::*;
use vstd::string::StrSliceExecFns;
use vstd::string::StringExecFns;

use crate::cli::Mode;
use crate::config::{IfTrait, LayerConfig};
use crate::error::PixError;
use crate::images::dims_of;
use crate::rng::draw_target;
use crate::strutil::{all_digits, contains_str, digits_val, find_char, parse_u32, str_eq};

verus! {

/// One selectable option of a layer: a rarity weight and, unless it is
/// the synthetic `None` option, an image.
pub struct Trait {
    /// The owning layer's display name.
    pub layer: String,
    pub name: String,
    pub weight: u32,
    pub image: Option<image::DynamicImage>,
}

/// The layer catalog: for each declared layer, in declaration order, its
/// ordered trait list. Declaration order is both sampling order and
/// compositing order, bottom layer first.
pub struct Layers {
    pub data: Vec<Vec<Trait>>,
    /// Canvas size, taken from the first loaded image.
    pub width: u32,
    pub height: u32,
}

/// One image file of a layer directory, already decoded: the file name
/// without its extension, and its pixels.
pub struct TraitFile {
    pub stem: String,
    pub image: image::DynamicImage,
}

/// One subdirectory of a layer directory with the image files in it.
pub struct RarityDir {
    pub name: String,
    pub files: Vec<TraitFile>,
}

/// The contents of one layer's directory: its image files (used in
/// `Advanced` mode) and its subdirectories (used in `Simple` mode).
pub struct LayerListing {
    pub files: Vec<TraitFile>,
    pub dirs: Vec<RarityDir>,
}

/// The weight of a recognized rarity folder name.
pub open spec fn spec_rarity_weight(name: Seq<char>) -> Option<u32> {
    if name == "common"@ {
        Some(70u32)
    } else if name == "uncommon"@ {
        Some(50u32)
    } else if name == "rare"@ {
        Some(20u32)
    } else if name == "mythical"@ {
        Some(10u32)
    } else if name == "legendary"@ {
        Some(5u32)
    } else {
        None
    }
}

/// Maps a rarity folder name to its fixed weight.
pub fn rarity_weight(name: &str) -> (r: Option<u32>)
    ensures
        r == spec_rarity_weight(name@),
{
    if str_eq(name, "common") {
        Some(70)
    } else if str_eq(name, "uncommon") {
        Some(50)
    } else if str_eq(name, "rare") {
        Some(20)
    } else if str_eq(name, "mythical") {
        Some(10)
    } else if str_eq(name, "legendary") {
        Some(5)
    } else {
        None
    }
}

/// The position of the first `c` in `s` at or after `from`; the length
/// of `s` when there is none.
pub open spec fn first_index_of(s: Seq<char>, c: char, from: int) -> int
    decreases s.len() - from,
{
    if from < 0 || from >= s.len() {
        s.len() as int
    } else if s[from] == c {
        from
    } else {
        first_index_of(s, c, from + 1)
    }
}

proof fn lemma_first_index_of_found(s: Seq<char>, c: char, from: int, i: int)
    requires
        0 <= from <= i < s.len(),
        s[i] == c,
        forall|j: int| from <= j < i ==> s[j] != c,
    ensures
        first_index_of(s, c, from) == i,
    decreases i - from,
{
    if from < i {
        lemma_first_index_of_found(s, c, from + 1, i);
    }
}

proof fn lemma_first_index_of_none(s: Seq<char>, c: char, from: int)
    requires
        0 <= from <= s.len(),
        forall|j: int| from <= j < s.len() ==> s[j] != c,
    ensures
        first_index_of(s, c, from) == s.len(),
    decreases s.len() - from,
{
    if from < s.len() {
        lemma_first_index_of_none(s, c, from + 1);
    }
}

/// The trait name encoded in an `Advanced`-mode file stem: everything
/// before the first `#`.
pub open spec fn stem_name(stem: Seq<char>) -> Seq<char> {
    stem.subrange(0, first_index_of(stem, '#', 0))
}

/// The weight digits encoded in an `Advanced`-mode file stem: everything
/// between the first `#` and the second one (or the end).
pub open spec fn stem_weight_part(stem: Seq<char>) -> Seq<char> {
    let h = first_index_of(stem, '#', 0);
    stem.subrange(h + 1, first_index_of(stem, '#', h + 1))
}

/// Whether the stem carries a `#` at all.
pub open spec fn stem_has_weight(stem: Seq<char>) -> bool {
    first_index_of(stem, '#', 0) < stem.len()
}

/// Whether the stem encodes a well-formed `<name>#<weight>` pair.
pub open spec fn stem_valid(stem: Seq<char>) -> bool {
    &&& stem_has_weight(stem)
    &&& stem_weight_part(stem).len() > 0
    &&& all_digits(stem_weight_part(stem))
    &&& digits_val(stem_weight_part(stem)) <= u32::MAX
}

/// Splits an `Advanced`-mode file stem into its trait name and weight.
///
/// A stem without a `#` is reported as missing its weight, carrying the
/// whole stem; a stem whose weight part does not read as a `u32` is
/// reported as unparsable, carrying that part.
pub fn parse_stem(stem: &str) -> (r: Result<(String, u32), PixError>)
    ensures
        match r {
            Ok(p) => stem_valid(stem@) && p.0@ == stem_name(stem@) && p.1 as int == digits_val(
                stem_weight_part(stem@),
            ),
            Err(e) => {
                &&& !stem_valid(stem@)
                &&& e is MissingWeight <==> !stem_has_weight(stem@)
                &&& e matches PixError::MissingWeight(s) ==> s@ == stem@
                &&& e matches PixError::BadWeight(p) ==> stem_has_weight(stem@) && p@
                    == stem_weight_part(stem@)
                &&& e is MissingWeight || e is BadWeight
            },
        },
{
    let len = s_len(stem);
    match find_char(stem, '#', 0) {
        None => {
            proof {
                lemma_first_index_of_none(stem@, '#', 0);
            }
            Err(PixError::MissingWeight(stem.to_owned()))
        },
        Some(h) => {
            proof {
                lemma_first_index_of_found(stem@, '#', 0, h as int);
            }
            let name = stem.substring_char(0, h);
            let end = match find_char(stem, '#', h + 1) {
                None => {
                    proof {
                        lemma_first_index_of_none(stem@, '#', h as int + 1);
                    }
                    len
                },
                Some(h2) => {
                    proof {
                        lemma_first_index_of_found(stem@, '#', h as int + 1, h2 as int);
                    }
                    h2
                },
            };
            let part = stem.substring_char(h + 1, end);
            match parse_u32(part) {
                Some(w) => Ok((name.to_owned(), w)),
                None => Err(PixError::BadWeight(part.to_owned())),
            }
        },
    }
}

/// The character count of a string slice.
fn s_len(s: &str) -> (r: usize)
    ensures
        r == s@.len(),
{
    s.unicode_len()
}

/// The sum of the weights of a trait list.
pub open spec fn total_weight_spec(list: Seq<Trait>) -> int
    decreases list.len(),
{
    if list.len() == 0 {
        0
    } else {
        total_weight_spec(list.drop_last()) + list.last().weight
    }
}

/// The sum of the weights of the first `k` traits.
pub open spec fn cum_weight(list: Seq<Trait>, k: int) -> int {
    total_weight_spec(list.subrange(0, k))
}

pub proof fn lemma_total_weight_nonneg(list: Seq<Trait>)
    ensures
        total_weight_spec(list) >= 0,
    decreases list.len(),
{
    if list.len() > 0 {
        lemma_total_weight_nonneg(list.drop_last());
    }
}

/// Unfolds one prefix step: the first `k + 1` weights are the first `k`
/// plus the weight at `k`.
pub proof fn lemma_cum_step(list: Seq<Trait>, k: int)
    requires
        0 <= k < list.len(),
    ensures
        cum_weight(list, k + 1) == cum_weight(list, k) + list[k].weight,
{
    let p = list.subrange(0, k + 1);
    assert(p.drop_last() =~= list.subrange(0, k));
}

proof fn lemma_total_weight_front(list: Seq<Trait>)
    requires
        list.len() > 0,
    ensures
        total_weight_spec(list) == list[0].weight + total_weight_spec(
            list.subrange(1, list.len() as int),
        ),
    decreases list.len(),
{
    let tail = list.subrange(1, list.len() as int);
    if list.len() == 1 {
        assert(list.drop_last() =~= Seq::<Trait>::empty());
        assert(tail =~= Seq::<Trait>::empty());
    } else {
        lemma_total_weight_front(list.drop_last());
        assert(tail.drop_last() =~= list.drop_last().subrange(1, list.len() - 1));
        assert(total_weight_spec(tail) == total_weight_spec(tail.drop_last())
            + tail.last().weight);
    }
}

pub proof fn lemma_cum_mono(list: Seq<Trait>, j: int, k: int)
    requires
        0 <= j <= k <= list.len(),
    ensures
        cum_weight(list, j) <= cum_weight(list, k),
    decreases k - j,
{
    if j < k {
        lemma_cum_step(list, k - 1);
        lemma_cum_mono(list, j, k - 1);
    }
}

/// The index the roulette wheel lands on for target `t`: traits are laid
/// out in list order, each covering a span as wide as its weight.
pub open spec fn spec_pick(list: Seq<Trait>, t: int) -> int
    decreases list.len(),
{
    if list.len() == 0 {
        0
    } else if t < list[0].weight {
        0
    } else {
        1 + spec_pick(list.subrange(1, list.len() as int), t - list[0].weight)
    }
}

/// Relates the first `k + 1` weights of a list to the first `k` of its
/// tail.
proof fn lemma_cum_front(list: Seq<Trait>, k: int)
    requires
        0 <= k < list.len(),
    ensures
        cum_weight(list, k + 1) == list[0].weight + cum_weight(
            list.subrange(1, list.len() as int),
            k,
        ),
{
    let p = list.subrange(0, k + 1);
    lemma_total_weight_front(p);
    assert(p.subrange(1, p.len() as int) =~= list.subrange(1, list.len() as int).subrange(0, k));
}

/// A target below the weight sum lands on an in-range trait, inside that
/// trait's span of the wheel.
pub proof fn lemma_pick_in_range(list: Seq<Trait>, t: int)
    requires
        0 <= t < total_weight_spec(list),
    ensures
        0 <= spec_pick(list, t) < list.len(),
        cum_weight(list, spec_pick(list, t)) <= t < cum_weight(list, spec_pick(list, t) + 1),
    decreases list.len(),
{
    assert(list.len() > 0);
    let tail = list.subrange(1, list.len() as int);
    if t < list[0].weight {
        assert(list.subrange(0, 0) =~= Seq::<Trait>::empty());
        lemma_cum_step(list, 0);
    } else {
        lemma_total_weight_front(list);
        lemma_pick_in_range(tail, t - list[0].weight);
        let i = spec_pick(tail, t - list[0].weight);
        lemma_cum_front(list, i);
        lemma_cum_front(list, i + 1);
        assert(list.subrange(0, 0) =~= Seq::<Trait>::empty());
        lemma_cum_step(list, 0);
    }
}

/// Every target inside trait `i`'s span of the wheel lands on `i`.
pub proof fn lemma_pick_unique(list: Seq<Trait>, i: int, t: int)
    requires
        0 <= i < list.len(),
        cum_weight(list, i) <= t < cum_weight(list, i + 1),
    ensures
        spec_pick(list, t) == i,
    decreases list.len(),
{
    assert(list.subrange(0, 0) =~= Seq::<Trait>::empty());
    lemma_cum_step(list, 0);
    let tail = list.subrange(1, list.len() as int);
    if i == 0 {
        lemma_total_weight_nonneg(list.subrange(0, 0));
        assert(t < list[0].weight);
    } else {
        lemma_cum_mono(list, 1, i);
        assert(t >= list[0].weight);
        lemma_cum_front(list, i - 1);
        lemma_cum_front(list, i);
        lemma_pick_unique(tail, i - 1, t - list[0].weight);
    }
}

/// The set of sampling targets that select trait `i`.
pub open spec fn targets_selecting(list: Seq<Trait>, i: int) -> Set<int> {
    Set::new(|t: int| 0 <= t < total_weight_spec(list) && spec_pick(list, t) == i)
}

/// Law: out of the `total_weight_spec(list)` equally likely sampling
/// targets, exactly `list[i].weight` select trait `i` — so the sampler
/// picks each trait with probability `weight / total` per draw.
pub proof fn lemma_sampler_frequency(list: Seq<Trait>, i: int)
    requires
        0 <= i < list.len(),
    ensures
        targets_selecting(list, i) =~= vstd::set_lib::set_int_range(
            cum_weight(list, i),
            cum_weight(list, i + 1),
        ),
        targets_selecting(list, i).len() == list[i].weight,
{
    lemma_cum_step(list, i);
    lemma_cum_mono(list, 0, i);
    lemma_cum_mono(list, i + 1, list.len() as int);
    assert(list.subrange(0, 0) =~= Seq::<Trait>::empty());
    assert(list.subrange(0, list.len() as int) =~= list);
    assert forall|t: int| targets_selecting(list, i).contains(t) implies
        vstd::set_lib::set_int_range(cum_weight(list, i), cum_weight(list, i + 1)).contains(t) by {
        lemma_pick_in_range(list, t);
    }
    assert forall|t: int| vstd::set_lib::set_int_range(
        cum_weight(list, i),
        cum_weight(list, i + 1),
    ).contains(t) implies targets_selecting(list, i).contains(t) by {
        lemma_pick_unique(list, i, t);
    }
    vstd::set_lib::lemma_int_range(cum_weight(list, i), cum_weight(list, i + 1));
}

/// The sum of a trait list's weights.
pub fn total_weight(list: &Vec<Trait>) -> (r: u64)
    requires
        list@.len() <= u32::MAX,
    ensures
        r as int == total_weight_spec(list@),
{
    let mut sum: u64 = 0;
    let mut i: usize = 0;
    while i < list.len()
        invariant
            0 <= i <= list@.len(),
            list@.len() <= u32::MAX,
            sum as int == total_weight_spec(list@.subrange(0, i as int)),
            sum as int <= i as int * (u32::MAX as int),
        decreases list@.len() - i,
    {
        proof {
            lemma_cum_step(list@, i as int);
            assert((i as int + 1) * (u32::MAX as int) == i as int * (u32::MAX as int)
                + u32::MAX as int) by (nonlinear_arith);
            assert((i as int + 1) * (u32::MAX as int) <= (u32::MAX as int) * (u32::MAX as int))
                by (nonlinear_arith)
                requires
                    i as int + 1 <= u32::MAX as int,
            ;
        }
        sum = sum + (list[i].weight as u64);
        i += 1;
    }
    proof {
        assert(list@.subrange(0, list@.len() as int) =~= list@);
    }
    sum
}

/// Picks the trait index for a sampling target by walking the wheel.
pub fn pick_index(list: &Vec<Trait>, target: u64) -> (i: usize)
    requires
        list@.len() <= u32::MAX,
        (target as int) < total_weight_spec(list@),
    ensures
        i < list@.len(),
        i as int == spec_pick(list@, target as int),
        list@[i as int].weight > 0,
{
    let ghost full = list@;
    let ghost t0 = target as int;
    let mut t = target;
    let mut i: usize = 0;
    proof {
        assert(full.subrange(0, full.len() as int) =~= full);
    }
    while i < list.len()
        invariant
            0 <= i <= full.len(),
            full == list@,
            t0 == target as int,
            t <= target,
            (t as int) < total_weight_spec(full.subrange(i as int, full.len() as int)),
            spec_pick(full, t0) == i + spec_pick(
                full.subrange(i as int, full.len() as int),
                t as int,
            ),
        decreases full.len() - i,
    {
        let ghost suffix = full.subrange(i as int, full.len() as int);
        let w = list[i].weight;
        assert(suffix[0] == full[i as int]);
        if t < w as u64 {
            assert(spec_pick(suffix, t as int) == 0);
            return i;
        }
        proof {
            lemma_total_weight_front(suffix);
            assert(suffix.subrange(1, suffix.len() as int) =~= full.subrange(
                i as int + 1,
                full.len() as int,
            ));
        }
        t = t - w as u64;
        i += 1;
    }
    proof {
        assert(full.subrange(full.len() as int, full.len() as int) =~= Seq::<Trait>::empty());
        assert(false);
    }
    0
}

/// What one catalog entry must hold: a trait name, a weight, and the
/// image the entry came with.
pub type TraitDesc = (Seq<char>, u32, image::DynamicImage);

/// The entries an `Advanced`-mode listing describes, in file order.
pub open spec fn advanced_expected(files: Seq<TraitFile>) -> Seq<TraitDesc> {
    files.map_values(
        |f: TraitFile| (stem_name(f.stem@), digits_val(stem_weight_part(f.stem@)) as u32, f.image),
    )
}

/// The entries one rarity folder describes: nothing when the folder name
/// is not a recognized rarity, else one entry per file at the folder's
/// fixed weight.
pub open spec fn dir_expected(d: RarityDir) -> Seq<TraitDesc> {
    match spec_rarity_weight(d.name@) {
        Some(w) => d.files@.map_values(|f: TraitFile| (f.stem@, w, f.image)),
        None => Seq::empty(),
    }
}

/// The entries a `Simple`-mode listing describes: the recognized rarity
/// folders' files, in folder order.
pub open spec fn simple_expected(dirs: Seq<RarityDir>) -> Seq<TraitDesc>
    decreases dirs.len(),
{
    if dirs.len() == 0 {
        Seq::empty()
    } else {
        simple_expected(dirs.drop_last()) + dir_expected(dirs.last())
    }
}

/// The entries one layer's listing describes under the given mode.
pub open spec fn expected_descs(mode: Mode, listing: LayerListing) -> Seq<TraitDesc> {
    match mode {
        Mode::Advanced => advanced_expected(listing.files@),
        Mode::Simple => simple_expected(listing.dirs@),
    }
}

proof fn lemma_simple_expected_step(dirs: Seq<RarityDir>, k: int)
    requires
        0 <= k < dirs.len(),
    ensures
        simple_expected(dirs.subrange(0, k + 1)) == simple_expected(dirs.subrange(0, k))
            + dir_expected(dirs[k]),
{
    let p = dirs.subrange(0, k + 1);
    assert(p.drop_last() =~= dirs.subrange(0, k));
    assert(p.last() == dirs[k]);
}

proof fn lemma_simple_expected_prefix_len(dirs: Seq<RarityDir>, k: int)
    requires
        0 <= k <= dirs.len(),
    ensures
        simple_expected(dirs.subrange(0, k)).len() <= simple_expected(dirs).len(),
    decreases dirs.len() - k,
{
    if k == dirs.len() {
        assert(dirs.subrange(0, k) =~= dirs);
    } else {
        lemma_simple_expected_step(dirs, k);
        lemma_simple_expected_prefix_len(dirs, k + 1);
    }
}

/// How many synthetic `None` traits a layer carries: one when the layer
/// declares a `none` weight or any exclusion rule, none otherwise.
pub open spec fn none_count(cfg: LayerConfig) -> int {
    if cfg.none is Some || has_exclusions(cfg) {
        1
    } else {
        0
    }
}

/// The weight of the synthetic `None` trait: the declared `none` weight,
/// or zero for the forced-exclusion target.
pub open spec fn none_weight(cfg: LayerConfig) -> u32 {
    match cfg.none {
        Some(w) => w,
        None => 0u32,
    }
}

/// What the synthetic `None` trait looks like.
pub open spec fn is_none_trait(t: Trait, cfg: LayerConfig) -> bool {
    &&& t.layer@ == display_of(cfg)
    &&& t.name@ == "None"@
    &&& t.weight == none_weight(cfg)
    &&& t.image is None
}

/// Whether a built trait carries exactly what its entry describes.
pub open spec fn desc_matches(t: Trait, cfg: LayerConfig, d: TraitDesc) -> bool {
    &&& t.layer@ == display_of(cfg)
    &&& t.name@ == d.0
    &&& t.weight == d.1
    &&& t.image == Some(d.2)
}

pub open spec fn descs_match(list: Seq<Trait>, cfg: LayerConfig, descs: Seq<TraitDesc>) -> bool {
    &&& list.len() == descs.len()
    &&& forall|j: int| 0 <= j < descs.len() ==> desc_matches(#[trigger] list[j], cfg, descs[j])
}

/// What a correctly built layer holds: the described entries in order,
/// then the synthetic `None` trait when the layer calls for one.
pub open spec fn layer_built(list: Seq<Trait>, cfg: LayerConfig, descs: Seq<TraitDesc>) -> bool {
    &&& list.len() == descs.len() + none_count(cfg)
    &&& descs_match(list.subrange(0, descs.len() as int), cfg, descs)
    &&& none_count(cfg) == 1 ==> is_none_trait(list.last(), cfg)
}

/// The name a layer shows in attribute maps: its display name when one
/// is declared, its directory name otherwise.
pub open spec fn display_of(cfg: LayerConfig) -> Seq<char> {
    match cfg.display_name {
        Some(d) => d@,
        None => cfg.name@,
    }
}

/// Whether the layer declares any exclusion rule.
pub open spec fn has_exclusions(cfg: LayerConfig) -> bool {
    cfg.exclude_if_sets is Some || cfg.exclude_if_traits is Some
}

/// Whether the active set's name forces this layer to its `None` trait.
pub open spec fn forced_by_set(cfg: LayerConfig, set_name: Seq<char>) -> bool {
    match cfg.exclude_if_sets {
        Some(sets) => exists|k: int| 0 <= k < sets@.len() && sets@[k]@ == set_name,
        None => false,
    }
}

/// Whether one exclusion condition matches a selected trait: same layer
/// name, and the trait's name among the condition's names.
pub open spec fn cond_matches(cond: IfTrait, tr: Trait) -> bool {
    tr.layer@ == cond.layer@ && exists|m: int|
        0 <= m < cond.traits@.len() && cond.traits@[m]@ == tr.name@
}

impl Layers {
    /// The catalog's trait lists, as sequences.
    pub open spec fn traits(self) -> Seq<Seq<Trait>> {
        self.data@.map_values(|v: Vec<Trait>| v@)
    }

    /// Every trait list is small enough for its weights to be summed in
    /// a `u64`.
    pub open spec fn wf(self) -> bool {
        forall|l: int| 0 <= l < self.traits().len() ==> (#[trigger] self.traits()[l]).len()
            <= u32::MAX
    }
}

/// Whether a selection already made in an earlier layer forces layer `l`
/// to its `None` trait.
pub open spec fn forced_by_traits(
    layers: Layers,
    cfg: LayerConfig,
    combo: Seq<usize>,
    l: int,
) -> bool {
    match cfg.exclude_if_traits {
        Some(conds) => exists|c: int, j: int|
            #![trigger conds@[c], combo[j]]
            0 <= c < conds@.len() && 0 <= j < l && cond_matches(
                conds@[c],
                layers.traits()[j][combo[j] as int],
            ),
        None => false,
    }
}

/// Whether a layer is trait-forced depends only on the selections of the
/// earlier layers.
proof fn lemma_forced_by_traits_stable(
    layers: Layers,
    cfg: LayerConfig,
    c1: Seq<usize>,
    c2: Seq<usize>,
    l: int,
)
    requires
        0 <= l <= c1.len(),
        l <= c2.len(),
        forall|j: int| 0 <= j < l ==> c1[j] == c2[j],
    ensures
        forced_by_traits(layers, cfg, c1, l) == forced_by_traits(layers, cfg, c2, l),
{
    match cfg.exclude_if_traits {
        Some(conds) => {
            if forced_by_traits(layers, cfg, c1, l) {
                let (c, j) = choose|c: int, j: int|
                    #![trigger conds@[c], c1[j]]
                    0 <= c < conds@.len() && 0 <= j < l && cond_matches(
                        conds@[c],
                        layers.traits()[j][c1[j] as int],
                    );
                assert(c2[j] == c1[j]);
                assert(cond_matches(conds@[c], layers.traits()[j][c2[j] as int]));
            }
            if forced_by_traits(layers, cfg, c2, l) {
                let (c, j) = choose|c: int, j: int|
                    #![trigger conds@[c], c2[j]]
                    0 <= c < conds@.len() && 0 <= j < l && cond_matches(
                        conds@[c],
                        layers.traits()[j][c2[j] as int],
                    );
                assert(c1[j] == c2[j]);
                assert(cond_matches(conds@[c], layers.traits()[j][c1[j] as int]));
            }
        },
        None => {},
    }
}

/// What sampling needs of a catalog: one trait list per declared layer,
/// each small enough for weight sums, and a forced-selection target in
/// every layer that declares exclusion rules.
pub open spec fn catalog_ready(layers: Layers, cfgs: Seq<LayerConfig>) -> bool {
    &&& layers.wf()
    &&& layers.traits().len() == cfgs.len()
    &&& forall|l: int|
        0 <= l < cfgs.len() && has_exclusions(#[trigger] cfgs[l]) ==> layers.traits()[l].len() >= 1
}

/// What a correct selection at layer `l` looks like: a forced layer
/// selects its `None` trait (the last index); any other layer selects an
/// in-range trait of positive weight.
pub open spec fn choice_ok(
    layers: Layers,
    cfgs: Seq<LayerConfig>,
    set_name: Seq<char>,
    combo: Seq<usize>,
    l: int,
) -> bool {
    let list = layers.traits()[l];
    if forced_by_set(cfgs[l], set_name) || forced_by_traits(layers, cfgs[l], combo, l) {
        combo[l] as int == list.len() - 1
    } else {
        combo[l] < list.len() && list[combo[l] as int].weight > 0
    }
}

/// Law: in a catalog built from its declarations, a correctly selected
/// layer whose exclusion rules apply — the active set's name in its
/// `exclude_if_sets`, or an earlier selection matching one of its
/// `exclude_if_traits` conditions — holds the synthetic `None` trait,
/// whatever weights it declares: the selection has no image and does not
/// render.
pub proof fn lemma_forced_layer_selects_none(
    layers: Layers,
    cfgs: Seq<LayerConfig>,
    set_name: Seq<char>,
    combo: Seq<usize>,
    l: int,
    descs: Seq<TraitDesc>,
)
    requires
        0 <= l < cfgs.len(),
        layers.traits().len() == cfgs.len(),
        layer_built(layers.traits()[l], cfgs[l], descs),
        choice_ok(layers, cfgs, set_name, combo, l),
        forced_by_set(cfgs[l], set_name) || forced_by_traits(layers, cfgs[l], combo, l),
    ensures
        is_none_trait(layers.traits()[l][combo[l] as int], cfgs[l]),
        layers.traits()[l][combo[l] as int].image is None,
{
    let list = layers.traits()[l];
    assert(has_exclusions(cfgs[l]));
    assert(none_count(cfgs[l]) == 1);
    assert(combo[l] as int == list.len() - 1);
    assert(is_none_trait(list.last(), cfgs[l]));
}

impl Layers {
    /// Evaluates the `exclude_if_traits` conditions of one layer against
    /// the selections made so far.
    fn excluded_by_traits(&self, conds: &Vec<IfTrait>, combo: &Vec<usize>) -> (r: bool)
        requires
            combo@.len() <= self.traits().len(),
            forall|j: int| 0 <= j < combo@.len() ==> combo@[j] < (#[trigger] self.traits()[j]).len(),
        ensures
            r == exists|c: int, j: int|
                #![trigger conds@[c], combo@[j]]
                0 <= c < conds@.len() && 0 <= j < combo@.len() && cond_matches(
                    conds@[c],
                    self.traits()[j][combo@[j] as int],
                ),
    {
        let mut c: usize = 0;
        while c < conds.len()
            invariant
                0 <= c <= conds@.len(),
                combo@.len() <= self.traits().len(),
                forall|j: int| 0 <= j < combo@.len() ==> combo@[j] < (
                #[trigger] self.traits()[j]).len(),
                forall|c2: int, j: int|
                    #![trigger conds@[c2], combo@[j]]
                    0 <= c2 < c && 0 <= j < combo@.len() ==> !cond_matches(
                        conds@[c2],
                        self.traits()[j][combo@[j] as int],
                    ),
            decreases conds@.len() - c,
        {
            let cond = &conds[c];
            let mut j: usize = 0;
            while j < combo.len()
                invariant
                    0 <= j <= combo@.len(),
                    c < conds@.len(),
                    cond == conds@[c as int],
                    combo@.len() <= self.traits().len(),
                    forall|j2: int| 0 <= j2 < combo@.len() ==> combo@[j2] < (
                    #[trigger] self.traits()[j2]).len(),
                    forall|j2: int|
                        0 <= j2 < j ==> !cond_matches(
                            conds@[c as int],
                            self.traits()[j2][combo@[j2] as int],
                        ),
                decreases combo@.len() - j,
            {
                assert(j < self.traits().len());
                assert(self.traits()[j as int] == self.data@[j as int]@);
                assert(combo@[j as int] < self.data@[j as int]@.len());
                let sel = &self.data[j][combo[j]];
                if str_eq(sel.layer.as_str(), cond.layer.as_str()) && contains_str(
                    &cond.traits,
                    sel.name.as_str(),
                ) {
                    assert(cond_matches(conds@[c as int], self.traits()[j as int][combo@[
                        j as int] as int]));
                    return true;
                }
                j += 1;
            }
            c += 1;
        }
        false
    }

    /// Draws one combination: one trait index per layer, in layer order.
    ///
    /// A layer whose exclusion rules apply — the active set's name in its
    /// `exclude_if_sets`, or an earlier selection matching one of its
    /// `exclude_if_traits` conditions — always selects its `None` trait,
    /// regardless of its weights. Any other layer is sampled by weight;
    /// an all-zero weight table there is a configuration error.
    pub fn create_unique(&self, layers: &Vec<LayerConfig>, set_name: &str) -> (r: Result<
        Vec<usize>,
        PixError,
    >)
        requires
            catalog_ready(*self, layers@),
        ensures
            match r {
                Ok(combo) => {
                    &&& combo@.len() == self.traits().len()
                    &&& forall|l: int|
                        0 <= l < combo@.len() ==> choice_ok(
                            *self,
                            layers@,
                            set_name@,
                            combo@,
                            l,
                        )
                },
                Err(e) => {
                    &&& e is ZeroWeightSum
                    &&& exists|l: int|
                        0 <= l < layers@.len() && !forced_by_set(
                            #[trigger] layers@[l],
                            set_name@,
                        ) && total_weight_spec(self.traits()[l]) == 0
                },
            },
            (forall|l: int|
                0 <= l < layers@.len() ==> forced_by_set(#[trigger] layers@[l], set_name@)
                    || total_weight_spec(self.traits()[l]) > 0) ==> r is Ok,
    {
        let mut combo: Vec<usize> = Vec::new();
        let mut l: usize = 0;
        while l < self.data.len()
            invariant
                self.wf(),
                layers@.len() == self.traits().len(),
                forall|l2: int|
                    0 <= l2 < layers@.len() && has_exclusions(#[trigger] layers@[l2])
                        ==> self.traits()[l2].len() >= 1,
                l == combo@.len(),
                l <= self.traits().len(),
                forall|j: int| 0 <= j < combo@.len() ==> combo@[j] < (
                #[trigger] self.traits()[j]).len(),
                forall|l2: int|
                    0 <= l2 < combo@.len() ==> choice_ok(*self, layers@, set_name@, combo@, l2),
            decreases self.traits().len() - l,
        {
            let ghost old_combo = combo@;
            let trait_list = &self.data[l];
            assert(trait_list@ == self.traits()[l as int]);
            let mut forced = false;
            if let Some(sets) = &layers[l].exclude_if_sets {
                if contains_str(sets, set_name) {
                    forced = true;
                }
            }
            assert(forced == forced_by_set(layers@[l as int], set_name@));
            if !forced {
                if let Some(conds) = &layers[l].exclude_if_traits {
                    if self.excluded_by_traits(conds, &combo) {
                        forced = true;
                    }
                }
            }
            assert(forced == (forced_by_set(layers@[l as int], set_name@) || forced_by_traits(
                *self,
                layers@[l as int],
                combo@,
                l as int,
            )));
            if forced {
                assert(has_exclusions(layers@[l as int]));
                let idx = trait_list.len() - 1;
                combo.push(idx);
            } else {
                let total = total_weight(trait_list);
                if total == 0 {
                    assert(!forced_by_set(layers@[l as int], set_name@));
                    return Err(PixError::ZeroWeightSum);
                }
                let t = draw_target(total);
                let idx = pick_index(trait_list, t);
                combo.push(idx);
            }
            proof {
                assert forall|l2: int| 0 <= l2 < combo@.len() implies choice_ok(
                    *self,
                    layers@,
                    set_name@,
                    combo@,
                    l2,
                ) by {
                    lemma_forced_by_traits_stable(*self, layers@[l2], old_combo, combo@, l2);
                    if l2 < l {
                        assert(combo@[l2] == old_combo[l2]);
                        assert(choice_ok(*self, layers@, set_name@, old_combo, l2));
                    }
                }
            }
            l += 1;
        }
        Ok(combo)
    }
}

/// A combination that indexes properly into a catalog built for the
/// given layer declarations.
pub open spec fn combo_in_bounds(layers: Layers, cfgs: Seq<LayerConfig>, combo: Seq<usize>) -> bool {
    &&& combo.len() == layers.traits().len()
    &&& layers.traits().len() == cfgs.len()
    &&& forall|l: int| 0 <= l < combo.len() ==> combo[l] < (#[trigger] layers.traits()[l]).len()
}

/// The name the layer's built traits carry.
pub fn display_name_of(cfg: &LayerConfig) -> (r: String)
    ensures
        r@ == display_of(*cfg),
{
    match &cfg.display_name {
        Some(d) => d.clone(),
        None => cfg.name.clone(),
    }
}

/// The layer's display name, borrowed.
pub fn display_str<'a>(cfg: &'a LayerConfig) -> (r: &'a str)
    ensures
        r@ == display_of(*cfg),
{
    match &cfg.display_name {
        Some(d) => d.as_str(),
        None => cfg.name.as_str(),
    }
}

/// Builds one layer's trait list from its directory listing.
fn build_layer(mode: Mode, cfg: &LayerConfig, listing: LayerListing) -> (r: Result<
    Vec<Trait>,
    PixError,
>)
    requires
        expected_descs(mode, listing).len() < u32::MAX as int,
    ensures
        match r {
            Ok(list) => {
                &&& list@.len() <= u32::MAX
                &&& layer_built(list@, *cfg, expected_descs(mode, listing))
                &&& mode is Advanced ==> forall|j: int|
                    0 <= j < listing.files@.len() ==> stem_valid(#[trigger] listing.files@[j].stem@)
            },
            Err(e) => {
                &&& (e is MissingWeight || e is BadWeight)
                &&& mode is Advanced
                &&& exists|j: int|
                    0 <= j < listing.files@.len() && !stem_valid(#[trigger] listing.files@[j].stem@)
                &&& e matches PixError::MissingWeight(s) ==> exists|j: int|
                    0 <= j < listing.files@.len() && (#[trigger] listing.files@[j]).stem@ == s@
                        && !stem_has_weight(s@)
                &&& e matches PixError::BadWeight(p) ==> exists|j: int|
                    0 <= j < listing.files@.len() && stem_has_weight(
                        (#[trigger] listing.files@[j]).stem@,
                    ) && !stem_valid(listing.files@[j].stem@) && p@ == stem_weight_part(
                        listing.files@[j].stem@,
                    )
            },
        },
        (mode is Simple || forall|j: int|
            0 <= j < listing.files@.len() ==> stem_valid(#[trigger] listing.files@[j].stem@))
            ==> r is Ok,
{
    let ghost descs = expected_descs(mode, listing);
    let mut trait_list: Vec<Trait> = Vec::new();
    match mode {
        Mode::Advanced => {
            let ghost files0 = listing.files@;
            let mut files = listing.files;
            let nf = files.len();
            let mut fi: usize = 0;
            while files.len() > 0
                invariant
                    files0 == listing.files@,
                    files0.len() == nf,
                    descs == advanced_expected(files0),
                    mode is Advanced,
                    descs.len() < u32::MAX as int,
                    fi + files@.len() == files0.len(),
                    files@ =~= files0.subrange(fi as int, files0.len() as int),
                    trait_list@.len() == fi,
                    forall|j: int|
                        0 <= j < fi ==> desc_matches(#[trigger] trait_list@[j], *cfg, descs[j]),
                    forall|j: int| 0 <= j < fi ==> stem_valid(#[trigger] files0[j].stem@),
                decreases files@.len(),
            {
                let f = files.remove(0);
                assert(f == files0[fi as int]);
                match parse_stem(f.stem.as_str()) {
                    Err(e) => {
                        assert(!stem_valid(files0[fi as int].stem@));
                        return Err(e);
                    },
                    Ok((name, weight)) => {
                        trait_list.push(
                            Trait {
                                layer: display_name_of(cfg),
                                name,
                                weight,
                                image: Some(f.image),
                            },
                        );
                        assert(desc_matches(trait_list@[fi as int], *cfg, descs[fi as int]));
                    },
                }
                fi += 1;
            }
            assert(fi == files0.len());
        },
        Mode::Simple => {
            let ghost dirs0 = listing.dirs@;
            let mut dirs = listing.dirs;
            let nd = dirs.len();
            let mut di: usize = 0;
            while dirs.len() > 0
                invariant
                    dirs0.len() == nd,
                    descs == simple_expected(dirs0),
                    descs.len() < u32::MAX as int,
                    di + dirs@.len() == dirs0.len(),
                    dirs@ =~= dirs0.subrange(di as int, dirs0.len() as int),
                    descs_match(trait_list@, *cfg, simple_expected(dirs0.subrange(0, di as int))),
                decreases dirs@.len(),
            {
                let d = dirs.remove(0);
                assert(d == dirs0[di as int]);
                proof {
                    lemma_simple_expected_step(dirs0, di as int);
                    lemma_simple_expected_prefix_len(dirs0, di as int + 1);
                }
                let ghost prefix = simple_expected(dirs0.subrange(0, di as int));
                let ghost dexp = dir_expected(dirs0[di as int]);
                match rarity_weight(d.name.as_str()) {
                    None => {
                        assert(dexp =~= Seq::<TraitDesc>::empty());
                        assert(prefix + dexp =~= prefix);
                    },
                    Some(weight) => {
                        let ghost dfiles = d.files@;
                        let mut dfs = d.files;
                        let ndf = dfs.len();
                        let mut fj: usize = 0;
                        while dfs.len() > 0
                            invariant
                                dfiles.len() == ndf,
                                prefix == simple_expected(dirs0.subrange(0, di as int)),
                                dexp == dir_expected(dirs0[di as int]),
                                dirs0[di as int].files@ == dfiles,
                                spec_rarity_weight(dirs0[di as int].name@) == Some(weight),
                                fj + dfs@.len() == dfiles.len(),
                                dfs@ =~= dfiles.subrange(fj as int, dfiles.len() as int),
                                descs_match(
                                    trait_list@,
                                    *cfg,
                                    prefix + dexp.subrange(0, fj as int),
                                ),
                                prefix + dexp.subrange(0, fj as int) =~= simple_expected(
                                    dirs0.subrange(0, di as int),
                                ) + dexp.subrange(0, fj as int),
                            decreases dfs@.len(),
                        {
                            let f = dfs.remove(0);
                            assert(f == dfiles[fj as int]);
                            assert(dexp[fj as int] == (f.stem@, weight, f.image));
                            trait_list.push(
                                Trait {
                                    layer: display_name_of(cfg),
                                    name: f.stem,
                                    weight,
                                    image: Some(f.image),
                                },
                            );
                            proof {
                                assert(prefix + dexp.subrange(0, fj as int + 1) =~= (prefix
                                    + dexp.subrange(0, fj as int)).push(dexp[fj as int]));
                            }
                            fj += 1;
                        }
                        proof {
                            assert(dexp.subrange(0, dexp.len() as int) =~= dexp);
                        }
                    },
                }
                assert(descs_match(trait_list@, *cfg, simple_expected(dirs0.subrange(
                    0,
                    di as int + 1,
                ))));
                di += 1;
            }
            proof {
                assert(dirs0.subrange(0, di as int) =~= dirs0);
            }
        },
    }
    let ghost base = trait_list@;
    assert(descs_match(base, *cfg, descs));
    let needs_none = match (&cfg.none, &cfg.exclude_if_sets, &cfg.exclude_if_traits) {
        (None, None, None) => false,
        _ => true,
    };
    if needs_none {
        let weight = match cfg.none {
            Some(w) => w,
            None => 0,
        };
        trait_list.push(
            Trait {
                layer: display_name_of(cfg),
                name: String::from_str("None"),
                weight,
                image: None,
            },
        );
        proof {
            assert(trait_list@.subrange(0, descs.len() as int) =~= base);
        }
    } else {
        proof {
            assert(trait_list@.subrange(0, descs.len() as int) =~= base);
        }
    }
    Ok(trait_list)
}

/// The first image of a trait list, in list order.
pub open spec fn first_image_in(list: Seq<Trait>) -> Option<image::DynamicImage>
    decreases list.len(),
{
    if list.len() == 0 {
        None
    } else if list[0].image is Some {
        list[0].image
    } else {
        first_image_in(list.subrange(1, list.len() as int))
    }
}

/// The first image of a catalog: the first trait carrying an image, in
/// layer order, then list order.
pub open spec fn first_image(tss: Seq<Seq<Trait>>) -> Option<image::DynamicImage>
    decreases tss.len(),
{
    if tss.len() == 0 {
        None
    } else if first_image_in(tss[0]) is Some {
        first_image_in(tss[0])
    } else {
        first_image(tss.subrange(1, tss.len() as int))
    }
}

impl Layers {
    /// Builds the catalog: one trait list per declared layer, in
    /// declaration order, from the layers' directory listings.
    ///
    /// A declared layer without a directory is a fatal configuration
    /// error, as is an `Advanced`-mode file name without a well-formed
    /// `#<weight>` suffix; a failed load leaves the catalog untouched.
    /// When no canvas size is set yet, the first loaded image's
    /// dimensions become the canvas size for the whole run; later images
    /// never overwrite it.
    pub fn load(&mut self, mode: Mode, layers: &Vec<LayerConfig>, sources: Vec<
        Option<LayerListing>,
    >) -> (r: Result<(), PixError>)
        requires
            sources@.len() == layers@.len(),
            forall|l: int|
                0 <= l < sources@.len() ==> (#[trigger] sources@[l]) is Some ==> expected_descs(
                    mode,
                    sources@[l]->Some_0,
                ).len() < u32::MAX as int,
        ensures
            match r {
                Ok(()) => {
                    &&& final(self).traits().len() == layers@.len()
                    &&& final(self).wf()
                    &&& catalog_ready(*final(self), layers@)
                    &&& forall|l: int|
                        0 <= l < layers@.len() ==> (#[trigger] sources@[l]) is Some && layer_built(
                            final(self).traits()[l],
                            layers@[l],
                            expected_descs(mode, sources@[l]->Some_0),
                        )
                    &&& forall|l: int|
                        0 <= l < layers@.len() && has_exclusions(#[trigger] layers@[l])
                            ==> final(self).traits()[l].len() >= 1
                    &&& mode is Advanced ==> forall|l: int, j: int|
                        0 <= l < layers@.len() && 0 <= j < sources@[l]->Some_0.files@.len()
                            ==> stem_valid(#[trigger] sources@[l]->Some_0.files@[j].stem@)
                    &&& old(self).width == 0 && old(self).height == 0 ==> match first_image(
                        final(self).traits(),
                    ) {
                        Some(img) => final(self).width == dims_of(img).0
                            && final(self).height == dims_of(img).1,
                        None => final(self).width == 0 && final(self).height == 0,
                    }
                    &&& (old(self).width != 0 || old(self).height != 0) ==> final(self).width
                        == old(self).width && final(self).height == old(self).height
                },
                Err(e) => {
                    &&& (e is LayerNotFound || e is MissingWeight || e is BadWeight)
                    &&& *final(self) == *old(self)
                    &&& e matches PixError::LayerNotFound(nm) ==> exists|l: int|
                        0 <= l < sources@.len() && (#[trigger] sources@[l]) is None && nm@
                            == layers@[l].name@
                    &&& e matches PixError::MissingWeight(s) ==> mode is Advanced && exists|
                        l: int,
                        j: int,
                    |
                        #![trigger sources@[l]->Some_0.files@[j]]
                        0 <= l < sources@.len() && (sources@[l]) is Some && 0 <= j
                            < sources@[l]->Some_0.files@.len()
                            && sources@[l]->Some_0.files@[j].stem@ == s@ && !stem_has_weight(s@)
                    &&& e matches PixError::BadWeight(p) ==> mode is Advanced && exists|
                        l: int,
                        j: int,
                    |
                        #![trigger sources@[l]->Some_0.files@[j]]
                        0 <= l < sources@.len() && (sources@[l]) is Some && 0 <= j
                            < sources@[l]->Some_0.files@.len() && stem_has_weight(
                            sources@[l]->Some_0.files@[j].stem@,
                        ) && !stem_valid(sources@[l]->Some_0.files@[j].stem@) && p@
                            == stem_weight_part(sources@[l]->Some_0.files@[j].stem@)
                },
            },
            ((forall|l: int| 0 <= l < sources@.len() ==> (#[trigger] sources@[l]) is Some) && (
            mode is Advanced ==> forall|l: int, j: int|
                0 <= l < sources@.len() && 0 <= j < sources@[l]->Some_0.files@.len()
                    ==> stem_valid(#[trigger] sources@[l]->Some_0.files@[j].stem@))) ==> r is Ok,
    {
        let ghost sources0 = sources@;
        let n_layers = layers.len();
        let mut rem = sources;
        let mut data: Vec<Vec<Trait>> = Vec::new();
        let mut l: usize = 0;
        while rem.len() > 0
            invariant
                *self == *old(self),
                sources0 == sources@,
                sources0.len() == n_layers,
                sources0.len() == layers@.len(),
                forall|l2: int|
                    0 <= l2 < sources0.len() ==> (#[trigger] sources0[l2]) is Some
                        ==> expected_descs(mode, sources0[l2]->Some_0).len() < u32::MAX as int,
                l + rem@.len() == sources0.len(),
                rem@ =~= sources0.subrange(l as int, sources0.len() as int),
                data@.len() == l,
                forall|l2: int|
                    0 <= l2 < l ==> (#[trigger] sources0[l2]) is Some && layer_built(
                        data@[l2]@,
                        layers@[l2],
                        expected_descs(mode, sources0[l2]->Some_0),
                    ),
                mode is Advanced ==> forall|l2: int, j: int|
                    0 <= l2 < l && 0 <= j < sources0[l2]->Some_0.files@.len() ==> stem_valid(
                        #[trigger] sources0[l2]->Some_0.files@[j].stem@,
                    ),
            decreases rem@.len(),
        {
            let source = rem.remove(0);
            assert(source == sources0[l as int]);
            let cfg = &layers[l];
            match source {
                None => {
                    let nm = cfg.name.clone();
                    assert(sources@[l as int] is None && nm@ == layers@[l as int].name@);
                    return Err(PixError::LayerNotFound(nm));
                },
                Some(listing) => {
                    match build_layer(mode, cfg, listing) {
                        Err(e) => {
                            proof {
                                assert(sources@[l as int] is Some);
                                assert(sources@[l as int]->Some_0 == listing);
                                if e is MissingWeight {
                                    let s = e->MissingWeight_0;
                                    let j = choose|j: int|
                                        0 <= j < listing.files@.len() && (
                                        #[trigger] listing.files@[j]).stem@ == s@
                                            && !stem_has_weight(s@);
                                    assert(sources@[l as int]->Some_0.files@[j].stem@ == s@);
                                }
                                if e is BadWeight {
                                    let p = e->BadWeight_0;
                                    let j = choose|j: int|
                                        0 <= j < listing.files@.len() && stem_has_weight(
                                            (#[trigger] listing.files@[j]).stem@,
                                        ) && !stem_valid(listing.files@[j].stem@) && p@
                                            == stem_weight_part(listing.files@[j].stem@);
                                    assert(stem_has_weight(
                                        sources@[l as int]->Some_0.files@[j].stem@,
                                    ));
                                }
                            }
                            return Err(e);
                        },
                        Ok(list) => {
                            data.push(list);
                        },
                    }
                },
            }
            l += 1;
        }
        assert(l == sources0.len());
        let ghost tss = data@.map_values(|v: Vec<Trait>| v@);
        // An already-set canvas size stays; otherwise the first loaded
        // image's dimensions become the canvas size.
        if self.width == 0 && self.height == 0 {
            let mut dims_opt: Option<(u32, u32)> = None;
            let mut li: usize = 0;
            proof {
                assert(tss.subrange(0, tss.len() as int) =~= tss);
            }
            while li < data.len() && dims_opt.is_none()
                invariant
                    li <= data@.len(),
                    tss == data@.map_values(|v: Vec<Trait>| v@),
                    tss.len() == data@.len(),
                    match dims_opt {
                        None => first_image(tss) == first_image(
                            tss.subrange(li as int, tss.len() as int),
                        ),
                        Some(d) => first_image(tss) is Some && d == dims_of(
                            first_image(tss)->Some_0,
                        ),
                    },
                decreases data@.len() - li,
            {
                let ghost suffix = tss.subrange(li as int, tss.len() as int);
                proof {
                    assert(suffix[0] == tss[li as int]);
                    assert(suffix.subrange(1, suffix.len() as int) =~= tss.subrange(
                        li as int + 1,
                        tss.len() as int,
                    ));
                }
                let list = &data[li];
                assert(list@ == tss[li as int]);
                let ghost lseq = list@;
                let mut ti: usize = 0;
                proof {
                    assert(lseq.subrange(0, lseq.len() as int) =~= lseq);
                }
                while ti < list.len() && dims_opt.is_none()
                    invariant
                        ti <= lseq.len(),
                        lseq == list@,
                        match dims_opt {
                            None => first_image_in(lseq) == first_image_in(
                                lseq.subrange(ti as int, lseq.len() as int),
                            ),
                            Some(d) => first_image_in(lseq) is Some && d == dims_of(
                                first_image_in(lseq)->Some_0,
                            ),
                        },
                    decreases lseq.len() - ti,
                {
                    let ghost lsuf = lseq.subrange(ti as int, lseq.len() as int);
                    proof {
                        assert(lsuf[0] == lseq[ti as int]);
                        assert(lsuf.subrange(1, lsuf.len() as int) =~= lseq.subrange(
                            ti as int + 1,
                            lseq.len() as int,
                        ));
                    }
                    if let Some(img) = &list[ti].image {
                        dims_opt = Some(crate::images::image_dims(img));
                        assert(first_image_in(lsuf) == Some(*img));
                    }
                    ti += 1;
                }
                proof {
                    if dims_opt is None {
                        assert(lseq.subrange(lseq.len() as int, lseq.len() as int)
                            =~= Seq::<Trait>::empty());
                        assert(first_image_in(lseq) is None);
                        assert(first_image(suffix) == first_image(
                            tss.subrange(li as int + 1, tss.len() as int),
                        ));
                    } else {
                        assert(first_image(suffix) == first_image_in(lseq));
                    }
                }
                li += 1;
            }
            proof {
                if dims_opt is None {
                    assert(tss.subrange(tss.len() as int, tss.len() as int) =~= Seq::<
                        Seq<Trait>,
                    >::empty());
                    assert(first_image(tss) is None);
                }
            }
            if let Some(dims) = dims_opt {
                self.width = dims.0;
                self.height = dims.1;
            }
        }
        self.data = data;
        proof {
            assert(self.traits() =~= tss);
        }
        proof {
            assert forall|l2: int| 0 <= l2 < self.traits().len() implies (
            #[trigger] self.traits()[l2]).len() <= u32::MAX by {
                assert(self.traits()[l2] == self.data@[l2]@);
                assert(layer_built(
                    self.traits()[l2],
                    layers@[l2],
                    expected_descs(mode, sources0[l2]->Some_0),
                ));
            }
            assert forall|l2: int| 0 <= l2 < layers@.len() implies (
            #[trigger] sources@[l2]) is Some && layer_built(
                self.traits()[l2],
                layers@[l2],
                expected_descs(mode, sources@[l2]->Some_0),
            ) by {
                assert(self.traits()[l2] == self.data@[l2]@);
                assert(sources0[l2] is Some);
                assert(layer_built(
                    self.data@[l2]@,
                    layers@[l2],
                    expected_descs(mode, sources0[l2]->Some_0),
                ));
            }
            assert forall|l2: int|
                0 <= l2 < layers@.len() && has_exclusions(#[trigger] layers@[l2]) implies
            self.traits()[l2].len() >= 1 by {
                assert(self.traits()[l2] == self.data@[l2]@);
                assert(sources0[l2] is Some);
                assert(layer_built(
                    self.data@[l2]@,
                    layers@[l2],
                    expected_descs(mode, sources0[l2]->Some_0),
                ));
                assert(none_count(layers@[l2]) == 1);
            }
        }
        Ok(())
    }
}

} // verus!
