use vstd::prelude::*;

verus! {

/// Width of the frame-capture image.
pub const CAPTURE_WIDTH: u32 = 960;

/// Height of the frame-capture image.
pub const CAPTURE_HEIGHT: u32 = 540;

/// Whether an image with `array_layers` layers is viewed as a whole through an array view.
pub fn main_view_is_array(array_layers: u32) -> (r: bool)
    ensures
        r <==> array_layers > 1,
{
    array_layers > 1
}

/// The layers that get a single-layer view of their own: every layer of an
/// array image, in order; none for a single-layer image.
pub open spec fn layer_view_layers_spec(array_layers: u32) -> Seq<u32> {
    if array_layers > 1 {
        Seq::new(array_layers as nat, |i: int| i as u32)
    } else {
        Seq::empty()
    }
}

/// The layers to create single-layer views for.
pub fn layer_view_layers(array_layers: u32) -> (r: Vec<u32>)
    ensures
        r@ == layer_view_layers_spec(array_layers),
{
    let mut r: Vec<u32> = Vec::new();
    if array_layers > 1 {
        let mut layer: u32 = 0;
        while layer < array_layers
            invariant
                layer <= array_layers,
                r@ == Seq::new(layer as nat, |i: int| i as u32),
            decreases array_layers - layer,
        {
            r.push(layer);
            layer = layer + 1;
            assert(r@ =~= Seq::new(layer as nat, |i: int| i as u32));
        }
    }
    assert(r@ =~= layer_view_layers_spec(array_layers));
    r
}

/// The views of an image: the main view and, for an array image, one view per layer.
pub struct LayeredViews<V> {
    view: V,
    layer_views: Vec<V>,
    array_layers: u32,
}

impl<V: Copy> LayeredViews<V> {
    pub closed spec fn main_view(&self) -> V {
        self.view
    }

    pub closed spec fn layer_views_spec(&self) -> Seq<V> {
        self.layer_views@
    }

    pub closed spec fn layers(&self) -> nat {
        self.array_layers as nat
    }

    /// Holds one view per layer exactly when there is more than one layer.
    pub open spec fn wf(&self) -> bool {
        self.layer_views_spec().len() == layer_view_layers_spec(self.layers() as u32).len()
    }

    /// Views of an image with `array_layers` layers, the per-layer views in layer order.
    pub fn new(view: V, layer_views: Vec<V>, array_layers: u32) -> (r: Self)
        requires
            layer_views@.len() == layer_view_layers_spec(array_layers).len(),
        ensures
            r.main_view() == view,
            r.layer_views_spec() == layer_views@,
            r.layers() == array_layers,
            r.wf(),
    {
        LayeredViews { view, layer_views, array_layers }
    }

    /// The view that covers the whole image.
    pub fn view(&self) -> (r: V)
        ensures
            r == self.main_view(),
    {
        self.view
    }

    /// The single-layer render target for `layer`; for a single-layer image
    /// `layer` is ignored and the main view is returned.
    pub fn layer_view(&self, layer: u32) -> (r: V)
        requires
            self.wf(),
            self.layers() > 1 ==> layer < self.layers(),
        ensures
            r == if self.layers() > 1 {
                self.layer_views_spec()[layer as int]
            } else {
                self.main_view()
            },
    {
        if self.array_layers > 1 {
            self.layer_views[layer as usize]
        } else {
            self.view
        }
    }
}

/// Bytes needed to read back a `width` by `height` image of four-byte pixels.
pub fn capture_buffer_size(width: u32, height: u32) -> (r: u64)
    requires
        width * height * 4 <= u32::MAX,
    ensures
        r == width * height * 4,
{
    assert(width * height <= u32::MAX) by (nonlinear_arith)
        requires
            width * height * 4 <= u32::MAX,
    ;
    (height * width * 4) as u64
}

} // verus!
