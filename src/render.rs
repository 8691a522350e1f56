use vstd::prelude::*;
use crate::canvas::{Canvas, canvas_dims, canvas_samples, pixel_at};
use crate::color::{Color, black};

verus! {

/// The color that pixel `p` ends with after the shaded layers are drawn in
/// order: the last layer whose color there is visible wins, with no depth
/// test; a pixel that no layer draws on stays black.
pub open spec fn layered_color(layers: Seq<Seq<Color>>, p: int) -> Color
    decreases layers.len(),
{
    if layers.len() == 0 {
        black()
    } else if layers.last()[p].visible() {
        layers.last()[p]
    } else {
        layered_color(layers.drop_last(), p)
    }
}

/// The shaded layers of a scene, one per sphere in draw order, as plain sequences.
pub open spec fn layers_view(layers: Seq<Vec<Color>>) -> Seq<Seq<Color>> {
    layers.map_values(|l: Vec<Color>| l@)
}

/// Every layer holds one color per pixel of a `width` x `height` frame.
pub open spec fn layers_fit(layers: Seq<Seq<Color>>, width: nat, height: nat) -> bool {
    forall|k: int| 0 <= k < layers.len() ==> (#[trigger] layers[k]).len() == width * height
}

/// Row-major RGB samples of a `width` x `height` frame whose every pixel
/// holds the composited color of the layers.
pub open spec fn frame_shows(s: Seq<u8>, layers: Seq<Seq<Color>>, width: nat, height: nat) -> bool {
    &&& s.len() == 3 * (width * height)
    &&& forall|p: int|
        0 <= p < width * height ==> #[trigger] pixel_at(s, p) == layered_color(layers, p)
}

spec fn shows_layers(c: Canvas, layers: Seq<Seq<Color>>, width: nat, height: nat) -> bool {
    &&& canvas_dims(c) == (width, height)
    &&& frame_shows(canvas_samples(c), layers, width, height)
}

proof fn lemma_pixel_in_frame(x: nat, y: nat, w: nat, h: nat)
    requires
        x < w,
        y < h,
    ensures
        y * w + x < w * h,
        3 * (y * w + x) + 2 < 3 * (w * h),
{
    assert(y * w + x < w * h) by (nonlinear_arith)
        requires
            x < w,
            y < h,
    ;
}

/// Draws one shaded layer onto the canvas: each pixel whose color in the
/// layer is visible is overwritten, the others are left as they were.
fn draw_layer(canvas: &mut Canvas, layer: &Vec<Color>, width: u32, height: u32, Ghost(
    below,
): Ghost<Seq<Seq<Color>>>)
    requires
        layer@.len() == width * height,
        3 * width * height <= usize::MAX,
        layers_fit(below, width as nat, height as nat),
        shows_layers(*old(canvas), below, width as nat, height as nat),
    ensures
        shows_layers(*final(canvas), below.push(layer@), width as nat, height as nat),
{
    let ghost layers = below.push(layer@);
    let ghost w = width as nat;
    let ghost n = w * height;
    assert(3 * n == 3 * width * height) by (nonlinear_arith)
        requires
            n == w * height,
            w == width,
    ;
    let mut y: u32 = 0;
    while y < height
        invariant
            0 <= y <= height,
            layer@.len() == n,
            n == w * height,
            3 * n <= usize::MAX,
            w == width,
            layers == below.push(layer@),
            canvas_dims(*canvas) == (w, height as nat),
            canvas_samples(*canvas).len() == 3 * n,
            forall|p: int|
                0 <= p < n ==> #[trigger] pixel_at(canvas_samples(*canvas), p) == if p < y * w {
                    layered_color(layers, p)
                } else {
                    layered_color(below, p)
                },
        decreases height - y,
    {
        let mut x: u32 = 0;
        while x < width
            invariant
                0 <= x <= width,
                y < height,
                layer@.len() == n,
                n == w * height,
                3 * n <= usize::MAX,
                w == width,
                layers == below.push(layer@),
                canvas_dims(*canvas) == (w, height as nat),
                canvas_samples(*canvas).len() == 3 * n,
                forall|p: int|
                    0 <= p < n ==> #[trigger] pixel_at(canvas_samples(*canvas), p) == if p < y * w
                        + x {
                        layered_color(layers, p)
                    } else {
                        layered_color(below, p)
                    },
            decreases width - x,
        {
            proof {
                lemma_pixel_in_frame(x as nat, y as nat, w, height as nat);
            }
            let i: usize = y as usize * width as usize + x as usize;
            let c = layer[i];
            let ghost before = canvas_samples(*canvas);
            if c.is_visible() {
                canvas.blend_pixel(x, y, c);
            }
            proof {
                let s = canvas_samples(*canvas);
                assert(layers.last() == layer@);
                assert(layers.drop_last() == below);
                assert forall|p: int| 0 <= p < n implies #[trigger] pixel_at(s, p) == if p < y * w
                    + x + 1 {
                    layered_color(layers, p)
                } else {
                    layered_color(below, p)
                } by {
                    if p != i {
                        assert(pixel_at(s, p) == pixel_at(before, p));
                    }
                }
            }
            x = x + 1;
        }
        proof {
            assert((y + 1) * w == y * w + w) by (nonlinear_arith);
        }
        y = y + 1;
    }
    proof {
        assert(y * w == n) by (nonlinear_arith)
            requires
                y == height,
                n == w * height,
        ;
    }
}

/// Composites the shaded layers of a scene, in draw order, into a new
/// `width` x `height` image and returns its samples: row-major, red, green
/// and blue for each pixel. Each layer holds one color per pixel, row-major.
/// Gives `None` when a layer does not have exactly `width * height` colors.
pub fn render_layers(width: u32, height: u32, layers: &Vec<Vec<Color>>) -> (r: Option<Vec<u8>>)
    requires
        3 * width * height <= usize::MAX,
    ensures
        r is Some <==> layers_fit(layers_view(layers@), width as nat, height as nat),
        r matches Some(v) ==> frame_shows(
            v@,
            layers_view(layers@),
            width as nat,
            height as nat,
        ),
{
    assert(3 * width * height == 3 * (width * height)) by (nonlinear_arith);
    let n: usize = width as usize * height as usize;
    let mut k: usize = 0;
    while k < layers.len()
        invariant
            0 <= k <= layers@.len(),
            n == width * height,
            forall|j: int| 0 <= j < k ==> (#[trigger] layers@[j])@.len() == n,
        decreases layers@.len() - k,
    {
        if layers[k].len() != n {
            proof {
                assert(layers_view(layers@)[k as int] == layers@[k as int]@);
            }
            return None;
        }
        k = k + 1;
    }
    let mut canvas = Canvas::blank(width, height);
    proof {
        let s0 = canvas_samples(canvas);
        assert forall|p: int| 0 <= p < width * height implies #[trigger] pixel_at(
            canvas_samples(canvas),
            p,
        ) == layered_color(Seq::empty(), p) by {
            assert(s0[3 * p] == 0 && s0[3 * p + 1] == 0 && s0[3 * p + 2] == 0);
        }
    }
    let mut k: usize = 0;
    while k < layers.len()
        invariant
            0 <= k <= layers@.len(),
            3 * width * height <= usize::MAX,
            forall|j: int| 0 <= j < layers@.len() ==> (#[trigger] layers@[j])@.len() == width * height,
            shows_layers(
                canvas,
                layers_view(layers@).take(k as int),
                width as nat,
                height as nat,
            ),
        decreases layers@.len() - k,
    {
        let ghost below = layers_view(layers@).take(k as int);
        draw_layer(&mut canvas, &layers[k], width, height, Ghost(below));
        proof {
            assert(below.push(layers@[k as int]@) == layers_view(layers@).take(k + 1));
        }
        k = k + 1;
    }
    proof {
        assert(layers_view(layers@).take(k as int) == layers_view(layers@));
    }
    Some(canvas.into_raw())
}

/// Overdraw follows draw order, not depth. Where both of two layers are
/// visible at a pixel, drawing `[a, b]` shows `b` and drawing `[b, a]` shows
/// `a`; where only one of them is visible, both orders show that one; where
/// neither is, the pixel stays black either way.
pub proof fn lemma_draw_order(a: Seq<Color>, b: Seq<Color>, p: int)
    requires
        0 <= p < a.len(),
        0 <= p < b.len(),
    ensures
        a[p].visible() && b[p].visible() ==> layered_color(seq![a, b], p) == b[p]
            && layered_color(seq![b, a], p) == a[p],
        a[p].visible() && !b[p].visible() ==> layered_color(seq![a, b], p) == a[p]
            && layered_color(seq![b, a], p) == a[p],
        !a[p].visible() && b[p].visible() ==> layered_color(seq![a, b], p) == b[p]
            && layered_color(seq![b, a], p) == b[p],
        !a[p].visible() && !b[p].visible() ==> layered_color(seq![a, b], p) == black()
            && layered_color(seq![b, a], p) == black(),
{
    reveal_with_fuel(layered_color, 3);
    assert(seq![a, b].drop_last() == seq![a]);
    assert(seq![b, a].drop_last() == seq![b]);
    assert(seq![a].drop_last() == Seq::<Seq<Color>>::empty());
    assert(seq![b].drop_last() == Seq::<Seq<Color>>::empty());
}

} // verus!
