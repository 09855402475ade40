use pix::layers::{pick_index, rarity_weight, total_weight, Trait};

fn t(name: &str, weight: u32) -> Trait {
    Trait { layer: "background".to_string(), name: name.to_string(), weight, image: None }
}

#[test]
fn total_weight_sums() {
    let v = vec![t("red", 70), t("blue", 30)];
    assert_eq!(total_weight(&v), 100);
}

#[test]
fn total_weight_empty_is_zero() {
    let v: Vec<Trait> = Vec::new();
    assert_eq!(total_weight(&v), 0);
}

#[test]
fn pick_lands_on_span_boundaries() {
    let v = vec![t("red", 70), t("blue", 30)];
    assert_eq!(pick_index(&v, 0), 0);
    assert_eq!(pick_index(&v, 69), 0);
    assert_eq!(pick_index(&v, 70), 1);
    assert_eq!(pick_index(&v, 99), 1);
}

#[test]
fn pick_frequency_is_exactly_the_weights() {
    // Layer `background`, traits red:70 and blue:30: of the 100 possible
    // sampling targets, exactly 70 select red and 30 select blue.
    let v = vec![t("red", 70), t("blue", 30)];
    let mut red = 0;
    let mut blue = 0;
    for target in 0..100u64 {
        match pick_index(&v, target) {
            0 => red += 1,
            1 => blue += 1,
            _ => unreachable!(),
        }
    }
    assert_eq!(red, 70);
    assert_eq!(blue, 30);
}

#[test]
fn pick_never_selects_zero_weight() {
    let v = vec![t("never", 0), t("always", 5)];
    for target in 0..5u64 {
        assert_eq!(pick_index(&v, target), 1);
    }
}

#[test]
fn rarity_folder_weights() {
    assert_eq!(rarity_weight("common"), Some(70));
    assert_eq!(rarity_weight("uncommon"), Some(50));
    assert_eq!(rarity_weight("rare"), Some(20));
    assert_eq!(rarity_weight("mythical"), Some(10));
    assert_eq!(rarity_weight("legendary"), Some(5));
    assert_eq!(rarity_weight("epic"), None);
    assert_eq!(rarity_weight(""), None);
}
