use pix::config::{IfTrait, LayerConfig, SetConfig};
use pix::error::PixError;
use pix::generate::{build_rarity, create_unique_set, generate_collection, generate_sets, GeneratedSet};
use pix::layers::{Layers, Trait};

fn t(layer: &str, name: &str, weight: u32) -> Trait {
    Trait { layer: layer.to_string(), name: name.to_string(), weight, image: None }
}

fn cfg(name: &str) -> LayerConfig {
    LayerConfig {
        name: name.to_string(),
        display_name: None,
        none: None,
        exclude_if_sets: None,
        exclude_if_traits: None,
    }
}

fn catalog(data: Vec<Vec<Trait>>) -> Layers {
    Layers { data, width: 0, height: 0 }
}

#[test]
fn excluded_set_always_selects_none() {
    // The hat layer opts out of the `special` set: every combination
    // generated for that set must select the trailing None trait.
    let layers = catalog(vec![
        vec![t("background", "red", 1)],
        vec![t("hat", "cap", 100), t("hat", "None", 0)],
    ]);
    let mut hat = cfg("hat");
    hat.exclude_if_sets = Some(vec!["special".to_string()]);
    let cfgs = vec![cfg("background"), hat];
    for _ in 0..50 {
        let combo = layers.create_unique(&cfgs, "special").unwrap();
        assert_eq!(combo, vec![0, 1]);
    }
    // Any other set samples the layer normally; None has weight zero, so
    // the cap is always selected.
    for _ in 0..50 {
        let combo = layers.create_unique(&cfgs, "ordinary").unwrap();
        assert_eq!(combo, vec![0, 0]);
    }
}

#[test]
fn excluded_trait_forces_none_when_the_earlier_pair_matches() {
    // The hat layer is excluded whenever the background selected red.
    let layers = catalog(vec![
        vec![t("background", "red", 1)],
        vec![t("hat", "cap", 100), t("hat", "None", 0)],
    ]);
    let mut hat = cfg("hat");
    hat.exclude_if_traits = Some(vec![IfTrait {
        layer: "background".to_string(),
        traits: vec!["red".to_string()],
    }]);
    let cfgs = vec![cfg("background"), hat];
    for _ in 0..50 {
        let combo = layers.create_unique(&cfgs, "").unwrap();
        assert_eq!(combo, vec![0, 1]);
    }
}

#[test]
fn excluded_trait_samples_normally_when_the_pair_does_not_match() {
    let layers = catalog(vec![
        vec![t("background", "red", 1)],
        vec![t("hat", "cap", 100), t("hat", "None", 0)],
    ]);
    let mut hat = cfg("hat");
    hat.exclude_if_traits = Some(vec![IfTrait {
        layer: "background".to_string(),
        traits: vec!["blue".to_string()],
    }]);
    let cfgs = vec![cfg("background"), hat];
    for _ in 0..50 {
        let combo = layers.create_unique(&cfgs, "").unwrap();
        assert_eq!(combo, vec![0, 0]);
    }
}

#[test]
fn all_zero_weights_are_a_configuration_error() {
    let layers = catalog(vec![vec![t("background", "red", 0)]]);
    let cfgs = vec![cfg("background")];
    let e = layers.create_unique(&cfgs, "").unwrap_err();
    assert!(matches!(e, PixError::ZeroWeightSum));
}

#[test]
fn completed_domain_holds_the_amount_pairwise_distinct() {
    let layers = catalog(vec![vec![
        t("background", "a", 1),
        t("background", "b", 1),
        t("background", "c", 1),
    ]]);
    let cfgs = vec![cfg("background")];
    let uniques = create_unique_set(&layers, &cfgs, "", 3, 10_000).unwrap();
    assert_eq!(uniques.len(), 3);
    for i in 0..uniques.len() {
        for j in (i + 1)..uniques.len() {
            assert_ne!(uniques[i], uniques[j]);
        }
    }
}

#[test]
fn exhausting_the_tolerance_fails_the_domain() {
    // Only 3 distinct combinations exist; asking for 5 with no tolerance
    // for duplicate draws must fail fatally.
    let layers = catalog(vec![vec![
        t("background", "a", 1),
        t("background", "b", 1),
        t("background", "c", 1),
    ]]);
    let cfgs = vec![cfg("background")];
    let e = create_unique_set(&layers, &cfgs, "", 5, 0).unwrap_err();
    assert!(matches!(e, PixError::Exhausted(5)));
    assert_eq!(
        e.message(),
        "you need more features or traits to generate the requested amount"
    );
}

#[test]
fn set_amounts_must_sum_to_the_total() {
    let layers = vec![
        catalog(vec![vec![t("background", "a", 1)]]),
        catalog(vec![vec![t("background", "a", 1)]]),
    ];
    let cfgs = vec![cfg("background")];
    let sets = vec![
        SetConfig { name: "one".to_string(), amount: 1 },
        SetConfig { name: "two".to_string(), amount: 1 },
    ];
    let e = generate_sets(&layers, &cfgs, &sets, 3, 10).unwrap_err();
    assert!(matches!(e, PixError::SetAmountMismatch));
    assert_eq!(e.message(), "amount in sets must equal the total amount");
}

#[test]
fn domains_are_numbered_from_descending_offsets() {
    let layers = vec![
        catalog(vec![vec![t("background", "a", 1), t("background", "b", 1)]]),
        catalog(vec![vec![t("background", "a", 1)]]),
    ];
    let cfgs = vec![cfg("background")];
    let sets = vec![
        SetConfig { name: "one".to_string(), amount: 2 },
        SetConfig { name: "two".to_string(), amount: 1 },
    ];
    let gens = generate_sets(&layers, &cfgs, &sets, 3, 10_000).unwrap();
    assert_eq!(gens.len(), 2);
    assert_eq!(gens[0].set_index, 0);
    assert_eq!(gens[0].offset, 1);
    assert_eq!(gens[0].uniques.len(), 2);
    assert_eq!(gens[1].set_index, 1);
    assert_eq!(gens[1].offset, 0);
    assert_eq!(gens[1].uniques.len(), 1);
}

#[test]
fn rarity_counts_every_selection_once() {
    // Three fixed combinations: red, red, blue. The counts must say so,
    // and each layer's counts must add up to the number of combinations.
    let layers = vec![catalog(vec![vec![
        t("background", "red", 70),
        t("background", "blue", 30),
    ]])];
    let cfgs = vec![cfg("background")];
    let gens = vec![GeneratedSet {
        uniques: vec![vec![0], vec![0], vec![1]],
        set_index: 0,
        offset: 0,
    }];
    let rarity = build_rarity(&layers, &cfgs, &gens, 3);
    assert_eq!(rarity.total, 3);
    assert_eq!(rarity.data.len(), 1);
    let stats = &rarity.data[0];
    assert_eq!(stats.layer, "background");
    assert_eq!(stats.counts.len(), 2);
    assert_eq!(stats.counts[0], ("red".to_string(), 2));
    assert_eq!(stats.counts[1], ("blue".to_string(), 1));
    let sum: usize = stats.counts.iter().map(|c| c.1).sum();
    assert_eq!(sum, rarity.total);
}

#[test]
fn generated_collection_rarity_sums_to_the_amount() {
    let layers = vec![catalog(vec![
        vec![t("background", "a", 1), t("background", "b", 1), t("background", "c", 1)],
        vec![t("hat", "cap", 1), t("hat", "crown", 1)],
    ])];
    let cfgs = vec![cfg("background"), cfg("hat")];
    let sets = vec![SetConfig { name: "".to_string(), amount: 4 }];
    let col = generate_collection(&layers, &cfgs, &sets, 4, 100_000).unwrap();
    assert_eq!(col.sets.len(), 1);
    assert_eq!(col.sets[0].uniques.len(), 4);
    assert_eq!(col.rarity.total, 4);
    assert_eq!(col.rarity.data.len(), 2);
    for stats in &col.rarity.data {
        let sum: usize = stats.counts.iter().map(|c| c.1).sum();
        assert_eq!(sum, 4);
    }
}
