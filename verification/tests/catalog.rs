use image::DynamicImage;
use pix::cli::Mode;
use pix::config::LayerConfig;
use pix::error::PixError;
use pix::layers::{LayerListing, Layers, RarityDir, TraitFile};

fn img(w: u32, h: u32) -> DynamicImage {
    DynamicImage::new_rgba8(w, h)
}

fn file(stem: &str, w: u32, h: u32) -> TraitFile {
    TraitFile { stem: stem.to_string(), image: img(w, h) }
}

fn cfg(name: &str) -> LayerConfig {
    LayerConfig {
        name: name.to_string(),
        display_name: None,
        none: None,
        exclude_if_sets: None,
        exclude_if_traits: None,
    }
}

#[test]
fn simple_mode_builds_from_rarity_folders() {
    let listing = LayerListing {
        files: Vec::new(),
        dirs: vec![
            RarityDir { name: "common".to_string(), files: vec![file("red", 2, 2), file("green", 2, 2)] },
            RarityDir { name: "unknown".to_string(), files: vec![file("skipped", 2, 2)] },
            RarityDir { name: "rare".to_string(), files: vec![file("gold", 2, 2)] },
        ],
    };
    let mut layers = Layers { data: Vec::new(), width: 0, height: 0 };
    let cfgs = vec![cfg("background")];
    layers.load(Mode::Simple, &cfgs, vec![Some(listing)]).unwrap();
    assert_eq!(layers.data.len(), 1);
    let list = &layers.data[0];
    assert_eq!(list.len(), 3);
    assert_eq!(list[0].name, "red");
    assert_eq!(list[0].weight, 70);
    assert_eq!(list[0].layer, "background");
    assert!(list[0].image.is_some());
    assert_eq!(list[1].name, "green");
    assert_eq!(list[1].weight, 70);
    assert_eq!(list[2].name, "gold");
    assert_eq!(list[2].weight, 20);
    assert_eq!((layers.width, layers.height), (2, 2));
}

#[test]
fn advanced_mode_parses_weight_suffixes() {
    let listing = LayerListing {
        files: vec![file("ape#1", 3, 4), file("zombie#2", 3, 4)],
        dirs: Vec::new(),
    };
    let mut layers = Layers { data: Vec::new(), width: 0, height: 0 };
    let mut c = cfg("face");
    c.display_name = Some("Face".to_string());
    let cfgs = vec![c];
    layers.load(Mode::Advanced, &cfgs, vec![Some(listing)]).unwrap();
    let list = &layers.data[0];
    assert_eq!(list.len(), 2);
    assert_eq!(list[0].name, "ape");
    assert_eq!(list[0].weight, 1);
    assert_eq!(list[0].layer, "Face");
    assert_eq!(list[1].name, "zombie");
    assert_eq!(list[1].weight, 2);
    assert_eq!((layers.width, layers.height), (3, 4));
}

#[test]
fn missing_layer_directory_is_fatal() {
    let mut layers = Layers { data: Vec::new(), width: 0, height: 0 };
    let cfgs = vec![cfg("background")];
    let e = layers.load(Mode::Simple, &cfgs, vec![None]).unwrap_err();
    assert!(matches!(e, PixError::LayerNotFound(_)));
    assert_eq!(e.message(), "configured layer not found: background");
    // A failed load leaves the catalog untouched.
    assert!(layers.data.is_empty());
    assert_eq!((layers.width, layers.height), (0, 0));
}

#[test]
fn a_failed_load_keeps_the_previous_catalog() {
    let mut layers = Layers { data: Vec::new(), width: 0, height: 0 };
    let cfgs = vec![cfg("face")];
    let listing = LayerListing { files: vec![file("ok#1", 2, 2)], dirs: Vec::new() };
    layers.load(Mode::Advanced, &cfgs, vec![Some(listing)]).unwrap();
    assert_eq!(layers.data[0].len(), 1);

    let bad = LayerListing { files: vec![file("broken", 2, 2)], dirs: Vec::new() };
    let e = layers.load(Mode::Advanced, &cfgs, vec![Some(bad)]).unwrap_err();
    assert!(matches!(e, PixError::MissingWeight(_)));
    assert_eq!(e.message(), "broken is missing `#weight`");
    assert_eq!(layers.data[0].len(), 1);
    assert_eq!(layers.data[0][0].name, "ok");
}

#[test]
fn an_already_set_canvas_size_stays() {
    let mut layers = Layers { data: Vec::new(), width: 7, height: 9 };
    let cfgs = vec![cfg("face")];
    let listing = LayerListing { files: vec![file("ok#1", 2, 2)], dirs: Vec::new() };
    layers.load(Mode::Advanced, &cfgs, vec![Some(listing)]).unwrap();
    assert_eq!((layers.width, layers.height), (7, 9));
}

#[test]
fn advanced_stem_without_weight_is_fatal() {
    let listing = LayerListing { files: vec![file("plain", 1, 1)], dirs: Vec::new() };
    let mut layers = Layers { data: Vec::new(), width: 0, height: 0 };
    let cfgs = vec![cfg("face")];
    let e = layers.load(Mode::Advanced, &cfgs, vec![Some(listing)]).unwrap_err();
    assert!(matches!(e, PixError::MissingWeight(_)));
}

#[test]
fn declared_none_weight_appends_a_none_trait() {
    let listing = LayerListing {
        files: vec![file("hat#5", 1, 1)],
        dirs: Vec::new(),
    };
    let mut layers = Layers { data: Vec::new(), width: 0, height: 0 };
    let mut c = cfg("hat");
    c.none = Some(40);
    let cfgs = vec![c];
    layers.load(Mode::Advanced, &cfgs, vec![Some(listing)]).unwrap();
    let list = &layers.data[0];
    assert_eq!(list.len(), 2);
    assert_eq!(list[1].name, "None");
    assert_eq!(list[1].weight, 40);
    assert!(list[1].image.is_none());
}

#[test]
fn exclusion_rules_force_a_zero_weight_none_trait() {
    let listing = LayerListing { files: vec![file("hat#5", 1, 1)], dirs: Vec::new() };
    let mut layers = Layers { data: Vec::new(), width: 0, height: 0 };
    let mut c = cfg("hat");
    c.exclude_if_sets = Some(vec!["special".to_string()]);
    let cfgs = vec![c];
    layers.load(Mode::Advanced, &cfgs, vec![Some(listing)]).unwrap();
    let list = &layers.data[0];
    assert_eq!(list.len(), 2);
    assert_eq!(list[1].name, "None");
    assert_eq!(list[1].weight, 0);
    assert!(list[1].image.is_none());
}
