use image::{DynamicImage, GenericImage, GenericImageView, Rgba};
use pix::images::merge;
use pix::layers::{Layers, Trait};
use pix::rarity::{LayerStats, Rarity};
use pix::render::{render_attributes, render_image};

fn solid(w: u32, h: u32, px: [u8; 4]) -> DynamicImage {
    let mut img = DynamicImage::new_rgba8(w, h);
    for x in 0..w {
        for y in 0..h {
            img.put_pixel(x, y, Rgba(px));
        }
    }
    img
}

fn t(layer: &str, name: &str, weight: u32, image: Option<DynamicImage>) -> Trait {
    Trait { layer: layer.to_string(), name: name.to_string(), weight, image }
}

#[test]
fn merge_overlays_the_top_image() {
    let mut bottom = solid(2, 2, [0, 0, 255, 255]);
    let top = solid(2, 2, [255, 0, 0, 255]);
    merge(&mut bottom, &top);
    assert_eq!(bottom.get_pixel(0, 0), Rgba([255, 0, 0, 255]));
    assert_eq!(bottom.get_pixel(1, 1), Rgba([255, 0, 0, 255]));
}

#[test]
fn rendered_attributes_follow_layer_order_and_include_none() {
    let layers = Layers {
        data: vec![
            vec![t("Background", "Red", 70, None)],
            vec![t("Hat", "Cap", 1, None), t("Hat", "None", 0, None)],
        ],
        width: 2,
        height: 2,
    };
    let attrs = render_attributes(&layers, &vec![0, 1]);
    assert_eq!(attrs.len(), 2);
    assert_eq!(attrs[0].name, "Background");
    assert_eq!(attrs[0].value, "Red");
    assert_eq!(attrs[1].name, "Hat");
    assert_eq!(attrs[1].value, "None");
}

#[test]
fn rendered_image_composites_in_layer_order_and_skips_none() {
    let layers = Layers {
        data: vec![
            vec![t("Background", "Blue", 1, Some(solid(2, 2, [0, 0, 255, 255])))],
            vec![
                t("Overlay", "Red", 1, Some(solid(2, 2, [255, 0, 0, 255]))),
                t("Overlay", "None", 0, None),
            ],
        ],
        width: 2,
        height: 2,
    };
    // Overlay selected: the red layer covers the blue one.
    let img = render_image(&layers, &vec![0, 0]);
    assert_eq!(img.dimensions(), (2, 2));
    assert_eq!(img.get_pixel(0, 0), Rgba([255, 0, 0, 255]));
    // None selected: the blue base stays visible.
    let img = render_image(&layers, &vec![0, 1]);
    assert_eq!(img.get_pixel(0, 0), Rgba([0, 0, 255, 255]));
}

#[test]
fn rendered_image_takes_the_catalog_canvas_size() {
    let layers = Layers {
        data: vec![vec![t("Background", "None", 1, None)]],
        width: 3,
        height: 5,
    };
    let img = render_image(&layers, &vec![0]);
    assert_eq!(img.dimensions(), (3, 5));
}

#[test]
fn rarity_counts_by_name() {
    let mut rarity = Rarity::new(10);
    rarity.data.push(LayerStats { layer: "Background".to_string(), counts: Vec::new() });
    rarity.count_trait(0, "Red");
    rarity.count_trait(0, "Red");
    rarity.count_trait(0, "Blue");
    let counts = &rarity.data[0].counts;
    assert_eq!(counts.len(), 2);
    assert_eq!(counts[0], ("Red".to_string(), 2));
    assert_eq!(counts[1], ("Blue".to_string(), 1));
}
