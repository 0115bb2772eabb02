//! Layer-shell surfaces: panels, overlays, notifications and backgrounds.
use vstd::prelude::*;

use crate::geometry::Rectangle;

verus! {

/// The layer that a surface lives on, from the lowest to the highest.
#[derive(Clone, Copy, Debug, PartialEq, Eq, Structural)]
pub enum Layer {
    Background,
    Bottom,
    Top,
    Overlay,
}

/// Whether a layer surface takes the keyboard.
#[derive(Clone, Copy, Debug, PartialEq, Eq, Structural)]
pub enum KeyboardInteractivity {
    Never,
    Exclusive,
    OnDemand,
}

/// A layer surface.
#[derive(Debug)]
pub struct LayerSurface {
    /// The surface's handle.
    pub surface: u64,
    /// The output that it belongs to.
    pub output: u64,
    pub namespace: String,
    pub layer: Layer,
    pub interactivity: KeyboardInteractivity,
    /// Its place on the output.
    pub geometry: Rectangle,
}

/// What a [`LayerSurface`] holds.
#[verifier::ext_equal]
pub struct LayerSurfaceView {
    pub surface: u64,
    pub output: u64,
    pub namespace: Seq<char>,
    pub layer: Layer,
    pub interactivity: KeyboardInteractivity,
    pub geometry: Rectangle,
}

impl View for LayerSurface {
    type V = LayerSurfaceView;

    open spec fn view(&self) -> LayerSurfaceView {
        LayerSurfaceView {
            surface: self.surface,
            output: self.output,
            namespace: self.namespace@,
            layer: self.layer,
            interactivity: self.interactivity,
            geometry: self.geometry,
        }
    }
}

/// What a list of layer surfaces holds.
pub open spec fn layer_views(layers: Seq<LayerSurface>) -> Seq<LayerSurfaceView> {
    Seq::new(layers.len(), |i: int| layers[i]@)
}

/// The first layer surface that `wanted` holds of.
pub open spec fn first_layer(
    layers: Seq<LayerSurfaceView>,
    wanted: spec_fn(LayerSurfaceView) -> bool,
) -> Option<LayerSurfaceView>
    decreases layers.len(),
{
    if layers.len() == 0 {
        None
    } else if wanted(layers[0]) {
        Some(layers[0])
    } else {
        first_layer(layers.drop_first(), wanted)
    }
}

/// A layer surface found is one of the list and has the property; none is
/// found only where none has it.
pub proof fn lemma_first_layer(
    layers: Seq<LayerSurfaceView>,
    wanted: spec_fn(LayerSurfaceView) -> bool,
)
    ensures
        match first_layer(layers, wanted) {
            Some(l) => layers.contains(l) && wanted(l),
            None => forall|j: int| 0 <= j < layers.len() ==> !wanted(#[trigger] layers[j]),
        },
    decreases layers.len(),
{
    if layers.len() > 0 && !wanted(layers[0]) {
        let rest = layers.drop_first();
        lemma_first_layer(rest, wanted);
        match first_layer(rest, wanted) {
            Some(l) => {
                let k = choose|k: int| 0 <= k < rest.len() && rest[k] == l;
                assert(layers[k + 1] == l);
            },
            None => {
                assert forall|j: int| 0 <= j < layers.len() implies !wanted(
                    #[trigger] layers[j],
                ) by {
                    if j > 0 {
                        assert(rest[j - 1] == layers[j]);
                    }
                }
            },
        }
    } else if layers.len() > 0 {
        assert(layers[0] == first_layer(layers, wanted)->0);
    }
}

/// The surface that takes the keyboard on this layer of this output.
pub open spec fn exclusive_on(layers: Seq<LayerSurfaceView>, output: u64, layer: Layer) -> Option<
    u64,
> {
    match first_layer(
        layers,
        |l: LayerSurfaceView|
            l.output == output && l.layer == layer && l.interactivity
                == KeyboardInteractivity::Exclusive,
    ) {
        Some(l) => Some(l.surface),
        None => None,
    }
}

/// Whether the output has this layer surface.
pub open spec fn is_on(layers: Seq<LayerSurfaceView>, output: u64, surface: u64) -> bool {
    first_layer(layers, |l: LayerSurfaceView| l.output == output && l.surface == surface) is Some
}

/// How the layer surface takes the keyboard; none where there is no such
/// surface.
pub open spec fn interactivity_of(layers: Seq<LayerSurfaceView>, surface: u64) -> Option<
    KeyboardInteractivity,
> {
    match first_layer(layers, |l: LayerSurfaceView| l.surface == surface) {
        Some(l) => Some(l.interactivity),
        None => None,
    }
}

/// What the layer surfaces of one output make of the keyboard focus: an
/// exclusive surface on the overlay layer, one on the top layer, the surface
/// that was clicked, and, where no window has the focus, an exclusive surface
/// on the bottom layer or one on the background.
pub open spec fn focus_on_output(
    layers: Seq<LayerSurfaceView>,
    output: u64,
    on_demand: Option<u64>,
    window_focused: bool,
) -> Option<u64> {
    if exclusive_on(layers, output, Layer::Overlay) is Some {
        exclusive_on(layers, output, Layer::Overlay)
    } else if exclusive_on(layers, output, Layer::Top) is Some {
        exclusive_on(layers, output, Layer::Top)
    } else if on_demand is Some && is_on(layers, output, on_demand->0) {
        on_demand
    } else if window_focused {
        None
    } else if exclusive_on(layers, output, Layer::Bottom) is Some {
        exclusive_on(layers, output, Layer::Bottom)
    } else {
        exclusive_on(layers, output, Layer::Background)
    }
}

/// Position of the first layer surface with this handle.
pub fn find_layer(layers: &Vec<LayerSurface>, surface: u64) -> (r: Option<usize>)
    ensures
        match r {
            Some(i) => i < layers@.len() && first_layer(
                layer_views(layers@),
                |l: LayerSurfaceView| l.surface == surface,
            ) == Some(layers@[i as int]@) && layers@[i as int].surface == surface,
            None => first_layer(
                layer_views(layers@),
                |l: LayerSurfaceView| l.surface == surface,
            ) is None && forall|j: int|
                0 <= j < layers@.len() ==> (#[trigger] layers@[j]).surface != surface,
        },
{
    let ghost all = layer_views(layers@);
    let ghost wanted = |l: LayerSurfaceView| l.surface == surface;
    let mut i: usize = 0;
    proof {
        assert(all.skip(0) =~= all);
    }
    while i < layers.len()
        invariant
            i <= layers@.len(),
            all == layer_views(layers@),
            wanted == (|l: LayerSurfaceView| l.surface == surface),
            first_layer(all, wanted) == first_layer(all.skip(i as int), wanted),
            forall|j: int| 0 <= j < i ==> (#[trigger] layers@[j]).surface != surface,
        decreases layers@.len() - i,
    {
        proof {
            assert(all.skip(i as int)[0] == layers@[i as int]@);
            assert(all.skip(i as int).drop_first() =~= all.skip(i + 1));
        }
        if layers[i].surface == surface {
            return Some(i);
        }
        i += 1;
    }
    None
}

/// Position of the first layer surface with this handle on this output.
pub fn find_layer_on(layers: &Vec<LayerSurface>, output: u64, surface: u64) -> (r: bool)
    ensures
        r == is_on(layer_views(layers@), output, surface),
{
    let ghost all = layer_views(layers@);
    let ghost wanted = |l: LayerSurfaceView| l.output == output && l.surface == surface;
    let mut i: usize = 0;
    proof {
        assert(all.skip(0) =~= all);
    }
    while i < layers.len()
        invariant
            i <= layers@.len(),
            all == layer_views(layers@),
            wanted == (|l: LayerSurfaceView| l.output == output && l.surface == surface),
            first_layer(all, wanted) == first_layer(all.skip(i as int), wanted),
        decreases layers@.len() - i,
    {
        proof {
            assert(all.skip(i as int)[0] == layers@[i as int]@);
            assert(all.skip(i as int).drop_first() =~= all.skip(i + 1));
        }
        if layers[i].output == output && layers[i].surface == surface {
            return true;
        }
        i += 1;
    }
    false
}

/// The surface that takes the keyboard on this layer of this output.
pub fn exclusive_on_layer(layers: &Vec<LayerSurface>, output: u64, layer: Layer) -> (r: Option<
    u64,
>)
    ensures
        r == exclusive_on(layer_views(layers@), output, layer),
{
    let ghost all = layer_views(layers@);
    let ghost wanted = |l: LayerSurfaceView|
        l.output == output && l.layer == layer && l.interactivity
            == KeyboardInteractivity::Exclusive;
    let mut i: usize = 0;
    proof {
        assert(all.skip(0) =~= all);
    }
    while i < layers.len()
        invariant
            i <= layers@.len(),
            all == layer_views(layers@),
            wanted == (|l: LayerSurfaceView|
                l.output == output && l.layer == layer && l.interactivity
                    == KeyboardInteractivity::Exclusive),
            first_layer(all, wanted) == first_layer(all.skip(i as int), wanted),
        decreases layers@.len() - i,
    {
        proof {
            assert(all.skip(i as int)[0] == layers@[i as int]@);
            assert(all.skip(i as int).drop_first() =~= all.skip(i + 1));
        }
        let l: &LayerSurface = &layers[i];
        if l.output == output && l.layer == layer && l.interactivity
            == KeyboardInteractivity::Exclusive {
            return Some(l.surface);
        }
        i += 1;
    }
    None
}

/// What the layer surfaces of one output make of the keyboard focus.
pub fn layer_focus_on_output(
    layers: &Vec<LayerSurface>,
    output: u64,
    on_demand: Option<u64>,
    window_focused: bool,
) -> (r: Option<u64>)
    ensures
        r == focus_on_output(layer_views(layers@), output, on_demand, window_focused),
{
    let overlay: Option<u64> = exclusive_on_layer(layers, output, Layer::Overlay);
    if overlay.is_some() {
        return overlay;
    }
    let top: Option<u64> = exclusive_on_layer(layers, output, Layer::Top);
    if top.is_some() {
        return top;
    }
    if let Some(surface) = on_demand {
        if find_layer_on(layers, output, surface) {
            return on_demand;
        }
    }
    if window_focused {
        return None;
    }
    let bottom: Option<u64> = exclusive_on_layer(layers, output, Layer::Bottom);
    if bottom.is_some() {
        return bottom;
    }
    exclusive_on_layer(layers, output, Layer::Background)
}

/// An exclusive surface on the overlay layer of an output takes the keyboard
/// before all else on that output.
pub proof fn lemma_exclusive_overlay_first(
    layers: Seq<LayerSurfaceView>,
    output: u64,
    on_demand: Option<u64>,
    window_focused: bool,
)
    requires
        exclusive_on(layers, output, Layer::Overlay) is Some,
    ensures
        focus_on_output(layers, output, on_demand, window_focused) == exclusive_on(
            layers,
            output,
            Layer::Overlay,
        ),
{
}

/// While a window has the focus, a surface on the bottom layer or the
/// background takes the keyboard only where it was clicked.
pub proof fn lemma_lower_layers_yield(
    layers: Seq<LayerSurfaceView>,
    output: u64,
    on_demand: Option<u64>,
)
    requires
        exclusive_on(layers, output, Layer::Overlay) is None,
        exclusive_on(layers, output, Layer::Top) is None,
    ensures
        focus_on_output(layers, output, on_demand, true) is None || focus_on_output(
            layers,
            output,
            on_demand,
            true,
        ) == on_demand,
{
}

/// Where a layer surface is on its output, once the layers are arranged.
#[derive(Clone, Copy, Debug, PartialEq, Eq, Structural)]
pub struct LayerPlace {
    pub surface: u64,
    pub geometry: Rectangle,
}

/// The place of a layer surface; that of before where it is not listed.
pub open spec fn place_in(places: Seq<LayerPlace>, surface: u64, before: Rectangle) -> Rectangle
    decreases places.len(),
{
    if places.len() == 0 {
        before
    } else if places[0].surface == surface {
        places[0].geometry
    } else {
        place_in(places.drop_first(), surface, before)
    }
}

/// The place of a layer surface; that of before where it is not listed.
pub fn find_place(places: &Vec<LayerPlace>, surface: u64, before: Rectangle) -> (r: Rectangle)
    ensures
        r == place_in(places@, surface, before),
{
    let mut i: usize = 0;
    proof {
        assert(places@.skip(0) =~= places@);
    }
    while i < places.len()
        invariant
            i <= places@.len(),
            place_in(places@, surface, before) == place_in(places@.skip(i as int), surface, before),
        decreases places@.len() - i,
    {
        proof {
            assert(places@.skip(i as int)[0] == places@[i as int]);
            assert(places@.skip(i as int).drop_first() =~= places@.skip(i + 1));
        }
        if places[i].surface == surface {
            return places[i].geometry;
        }
        i += 1;
    }
    before
}

} // verus!
