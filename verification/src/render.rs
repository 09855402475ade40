use vstd::prelude::*;

use crate::images::{canvas_of, merge, new_canvas, overlaid};
use crate::layers::Layers;
use crate::metadata::Attribute;

verus! {

/// Builds the attribute map of one combination: for every layer, in
/// layer order, the layer's display name and the selected trait's name,
/// `None` selections included.
pub fn render_attributes(layers: &Layers, combo: &Vec<usize>) -> (r: Vec<Attribute>)
    requires
        combo@.len() == layers.traits().len(),
        forall|l: int| 0 <= l < combo@.len() ==> combo@[l] < (#[trigger] layers.traits()[l]).len(),
    ensures
        r@.len() == combo@.len(),
        forall|l: int|
            0 <= l < r@.len() ==> {
                let t = layers.traits()[l][combo@[l] as int];
                (#[trigger] r@[l]).name@ == t.layer@ && r@[l].value@ == t.name@
            },
{
    let mut attrs: Vec<Attribute> = Vec::new();
    let n = combo.len();
    let mut l: usize = 0;
    while l < n
        invariant
            l <= n,
            n == combo@.len(),
            combo@.len() == layers.traits().len(),
            forall|l2: int|
                0 <= l2 < combo@.len() ==> combo@[l2] < (#[trigger] layers.traits()[l2]).len(),
            attrs@.len() == l,
            forall|l2: int|
                0 <= l2 < l ==> {
                    let t = layers.traits()[l2][combo@[l2] as int];
                    (#[trigger] attrs@[l2]).name@ == t.layer@ && attrs@[l2].value@ == t.name@
                },
        decreases n - l,
    {
        assert(layers.traits()[l as int] == layers.data@[l as int]@);
        let t = &layers.data[l][combo[l]];
        attrs.push(Attribute { name: t.layer.clone(), value: t.name.clone() });
        l += 1;
    }
    attrs
}

/// The canvas after compositing the first `k` layers of a combination: a
/// blank canvas of the catalog's dimensions, with each selected trait's
/// image overlaid in layer order at the origin; a `None` selection adds
/// nothing.
pub open spec fn composite_of(layers: Layers, combo: Seq<usize>, k: int) -> image::DynamicImage
    decreases k,
{
    if k <= 0 {
        canvas_of(layers.width, layers.height)
    } else {
        let below = composite_of(layers, combo, k - 1);
        match layers.traits()[k - 1][combo[k - 1] as int].image {
            Some(img) => overlaid(below, img),
            None => below,
        }
    }
}

/// Composites one combination into a pixel buffer: exactly the fold of
/// the selected images over a fresh canvas, in layer order. The
/// arrangement — which images, in which order — is decided here; the
/// pixel arithmetic itself is the image crate's, behind the `canvas_of`
/// and `overlaid` names.
pub fn render_image(layers: &Layers, combo: &Vec<usize>) -> (r: image::DynamicImage)
    requires
        combo@.len() == layers.traits().len(),
        forall|l: int| 0 <= l < combo@.len() ==> combo@[l] < (#[trigger] layers.traits()[l]).len(),
    ensures
        r == composite_of(*layers, combo@, combo@.len() as int),
{
    let mut base = new_canvas(layers.width, layers.height);
    let n = combo.len();
    let mut l: usize = 0;
    while l < n
        invariant
            l <= n,
            n == combo@.len(),
            combo@.len() == layers.traits().len(),
            forall|l2: int|
                0 <= l2 < combo@.len() ==> combo@[l2] < (#[trigger] layers.traits()[l2]).len(),
            base == composite_of(*layers, combo@, l as int),
        decreases n - l,
    {
        assert(layers.traits()[l as int] == layers.data@[l as int]@);
        let t = &layers.data[l][combo[l]];
        match &t.image {
            Some(img) => {
                merge(&mut base, img);
            },
            None => {},
        }
        assert(base == composite_of(*layers, combo@, l as int + 1));
        l += 1;
    }
    base
}

} // verus!
