//! Where things are drawn: the canvas, the parts of an image, and sprites.

use vstd::arithmetic::mul::*;
use vstd::arithmetic::power2::*;
use vstd::prelude::*;

use crate::arith;
use crate::color;
use crate::error::ErrorView;
use crate::float;
use crate::framework::graphics;
use crate::gdx::sprites;
use crate::host;
use crate::host::{AnswerView, Bounds, EffectView};
use crate::laws::conversions;
use crate::laws::rounding;
use crate::laws::rounding::{apart, closest_single, finite_single};
use crate::value::{ObjectId, ValueView};
use crate::world::{CanvasState, WorldView};

verus! {

// Numbers.

/// What is closest to a fraction is closest to it with both sides multiplied.
pub proof fn lemma_reduced(r: u32, n: int, d: int, k: int)
    requires
        k > 0,
        closest_single(r, n * k, d * k),
    ensures
        closest_single(r, n, d),
{
    assert forall|z: u32| apart(#[trigger] float::single_worth(z) * (d * k), n * k) == apart(
        float::single_worth(z) * d,
        n,
    ) * k by {
        let v = float::single_worth(z);
        assert(v * (d * k) == (v * d) * k) by (nonlinear_arith);
        assert((v * d) * k - n * k == (v * d - n) * k) by (nonlinear_arith);
        assert(n * k - (v * d) * k == (n - v * d) * k) by (nonlinear_arith);
        assert(v * d < n ==> (v * d) * k < n * k) by (nonlinear_arith)
            requires
                k > 0,
        ;
        assert(v * d >= n ==> (v * d) * k >= n * k) by (nonlinear_arith)
            requires
                k > 0,
        ;
    }
    assert forall|z: u32| !float::single_nan(z) implies apart(float::single_worth(r) * d, n)
        <= apart(#[trigger] float::single_worth(z) * d, n) by {
        let (p, q) = (
            apart(float::single_worth(r) * d, n),
            apart(float::single_worth(z) * d, n),
        );
        assert(apart(float::single_worth(r) * (d * k), n * k) == p * k);
        assert(apart(float::single_worth(z) * (d * k), n * k) == q * k);
        assert(p <= q) by (nonlinear_arith)
            requires
                p * k <= q * k,
                k > 0,
        ;
    }
    assert forall|z: u32| !float::single_nan(z) && z % 0x8000_0000 != r % 0x8000_0000 && apart(
        float::single_worth(r) * d,
        n,
    ) == apart(#[trigger] float::single_worth(z) * d, n) implies r % 2 == 0 by {
        assert(apart(float::single_worth(r) * (d * k), n * k) == apart(
            float::single_worth(z) * (d * k),
            n * k,
        ));
    }
    assert(n != 0 ==> n * k != 0 && (n * k < 0) == (n < 0)) by (nonlinear_arith)
        requires
            k > 0,
    ;
}

/// A single divided by a whole number that a single can hold.
proof fn lemma_divided(x: u32, count: u32)
    requires
        finite_single(x),
        0 < count < 0x100_0000,
    ensures
        closest_single(
            arith::single_quotient(x, float::int_as_single(count as int)),
            float::single_worth(x),
            count as int,
        ),
{
    let c = float::int_as_single(count as int);
    let one = pow2(149) as int;
    lemma_pow2_pos(149);
    conversions::a_short_integer_is_exact_as_a_single(count as int);
    assert(count * one > 0) by (nonlinear_arith)
        requires
            count > 0,
            one > 0,
    ;
    rounding::the_quotient_of_singles_is_closest(x, c);
    lemma_reduced(
        arith::single_quotient(x, c),
        float::single_worth(x),
        count as int,
        one,
    );
}

// Parts of an image.

/// The corners of a part of an image, times the size of the image, give the part back: the left
/// and upper one its place, and the right and lower one its place and its extent together, as
/// near as singles can be wherever the two can be added exactly.
pub proof fn the_corners_give_the_region_back(
    region: Bounds,
    width: u32,
    height: u32,
    right: u32,
    bottom: u32,
)
    requires
        0 < width < 0x100_0000,
        0 < height < 0x100_0000,
        finite_single(region.x),
        finite_single(region.y),
        finite_single(region.width),
        finite_single(region.height),
        finite_single(right),
        finite_single(bottom),
        float::single_worth(right) == float::single_worth(region.x) + float::single_worth(
            region.width,
        ),
        float::single_worth(bottom) == float::single_worth(region.y) + float::single_worth(
            region.height,
        ),
    ensures
        ({
            let c = sprites::corners(region, width, height);
            &&& closest_single(c.left, float::single_worth(region.x), width as int)
            &&& closest_single(c.top, float::single_worth(region.y), height as int)
            &&& closest_single(
                c.right,
                float::single_worth(region.x) + float::single_worth(region.width),
                width as int,
            )
            &&& closest_single(
                c.bottom,
                float::single_worth(region.y) + float::single_worth(region.height),
                height as int,
            )
        }),
{
    rounding::the_sum_of_singles_is_closest(region.x, region.width);
    rounding::the_sum_of_singles_is_closest(region.y, region.height);
    let r = arith::single_sum(region.x, region.width);
    let b = arith::single_sum(region.y, region.height);
    rounding::the_closest_single_is_exact(r, float::single_worth(right), 1, right);
    rounding::the_closest_single_is_exact(b, float::single_worth(bottom), 1, bottom);
    lemma_same_worth(r, right);
    lemma_same_worth(b, bottom);
    lemma_divided(region.x, width);
    lemma_divided(region.y, height);
    lemma_divided(r, width);
    lemma_divided(b, height);
}

/// A single that is worth as much as a finite one is finite.
pub proof fn lemma_same_worth(a: u32, b: u32)
    requires
        !float::single_nan(a),
        finite_single(b),
        float::single_worth(a) == float::single_worth(b),
    ensures
        finite_single(a),
{
    let (m, n) = (float::single_magnitude(a), float::single_magnitude(b));
    rounding::lemma_worthless(m, 23);
    rounding::lemma_worthless(n, 23);
    if m > n {
        float::lemma_units_ordered(n, m, 23);
    } else if n > m {
        float::lemma_units_ordered(m, n, 23);
    }
}

/// A sprite's corners are exact where they can be: a part of an image that ends where the image
/// does ends at one.
pub proof fn a_region_up_to_the_edge_ends_at_one(region: Bounds, width: u32, height: u32)
    requires
        0 < width < 0x100_0000,
        0 < height < 0x100_0000,
        finite_single(region.x),
        finite_single(region.y),
        finite_single(region.width),
        finite_single(region.height),
        float::single_worth(region.x) + float::single_worth(region.width) == width * pow2(149),
        float::single_worth(region.y) + float::single_worth(region.height) == height * pow2(149),
    ensures
        float::single_worth(sprites::corners(region, width, height).right) == pow2(149),
        float::single_worth(sprites::corners(region, width, height).bottom) == pow2(149),
{
    let one = pow2(149) as int;
    conversions::a_short_integer_is_exact_as_a_single(width as int);
    conversions::a_short_integer_is_exact_as_a_single(height as int);
    the_corners_give_the_region_back(
        region,
        width,
        height,
        float::int_as_single(width as int),
        float::int_as_single(height as int),
    );
    lemma_pow2_pos(23);
    rounding::the_worth_of_a_single(false, 0, 0);
    let c = sprites::corners(region, width, height);
    let (r, b) = (float::single_worth(c.right), float::single_worth(c.bottom));
    lemma_mul_is_commutative(one, width as int);
    lemma_mul_is_commutative(one, height as int);
    rounding::the_closest_single_is_exact(c.right, width * one, width as int, 0x3f80_0000);
    rounding::the_closest_single_is_exact(c.bottom, height * one, height as int, 0x3f80_0000);
    assert(r == one) by (nonlinear_arith)
        requires
            r * width == width * one,
            width > 0,
    ;
    assert(b == one) by (nonlinear_arith)
        requires
            b * height == height * one,
            height > 0,
    ;
}

// The canvas.

/// Whether a coordinate lands where the canvas puts it: as far from the origin as the coordinate
/// times the scale, as near as a single can be wherever that product is exact.
pub open spec fn lands(r: u32, origin: u32, at: u32, scale: u32) -> bool {
    forall|z: u32|
        finite_single(z) && #[trigger] float::single_worth(z) * pow2(149) == float::single_worth(at)
            * float::single_worth(scale) ==> closest_single(
            r,
            float::single_worth(origin) + float::single_worth(z),
            1,
        )
}

/// Whether a length is another one times a scale.
pub open spec fn stretches(r: u32, length: u32, scale: u32) -> bool {
    closest_single(
        r,
        float::single_worth(length) * float::single_worth(scale),
        pow2(149) as int,
    )
}

pub open spec fn finite_canvas(c: CanvasState) -> bool {
    finite_single(c.x) && finite_single(c.y) && finite_single(c.scale_x) && finite_single(c.scale_y)
}

proof fn lemma_lands(origin: u32, at: u32, scale: u32)
    requires
        finite_single(origin),
        finite_single(at),
        finite_single(scale),
    ensures
        lands(graphics::placed(origin, at, scale), origin, at, scale),
{
    let p = arith::single_product(at, scale);
    let one = pow2(149) as int;
    lemma_pow2_pos(149);
    rounding::the_product_of_singles_is_closest(at, scale);
    assert forall|z: u32|
        finite_single(z) && #[trigger] float::single_worth(z) * pow2(149) == float::single_worth(at)
            * float::single_worth(scale) implies closest_single(
        graphics::placed(origin, at, scale),
        float::single_worth(origin) + float::single_worth(z),
        1,
    ) by {
        let n = float::single_worth(at) * float::single_worth(scale);
        rounding::the_closest_single_is_exact(p, n, one, z);
        let (v, u) = (float::single_worth(p), float::single_worth(z));
        assert(v == u) by (nonlinear_arith)
            requires
                v * one == u * one,
                one > 0,
        ;
        lemma_same_worth(p, z);
        rounding::the_sum_of_singles_is_closest(origin, p);
    }
}

/// A number as an argument.
pub open spec fn is_single(args: Seq<ValueView>, index: int, x: u32) -> bool {
    index < args.len() && args[index] == ValueView::Float(x)
}

pub open spec fn is_object(args: Seq<ValueView>, index: int) -> bool {
    index < args.len() && args[index] is Object
}

proof fn lemma_canvas_methods()
    ensures
        "translate"@ != "drawBitmap"@,
        "translate"@ != "drawRect"@,
        "translate"@ != "save"@,
        "translate"@ != "restore"@,
        "scale"@ != "drawBitmap"@,
        "scale"@ != "drawRect"@,
        "scale"@ != "save"@,
        "scale"@ != "restore"@,
        "scale"@ != "translate"@,
        "save"@ != "drawBitmap"@,
        "save"@ != "drawRect"@,
        "restore"@ != "drawBitmap"@,
        "restore"@ != "drawRect"@,
        "restore"@ != "save"@,
        "drawRect"@ != "drawBitmap"@,
{
    reveal_strlit("translate");
    reveal_strlit("scale");
    reveal_strlit("save");
    reveal_strlit("restore");
    reveal_strlit("drawRect");
    reveal_strlit("drawBitmap");
    assert("translate"@.len() == 9 && "scale"@.len() == 5 && "save"@.len() == 4);
    assert("restore"@.len() == 7 && "drawRect"@.len() == 8 && "drawBitmap"@.len() == 10);
}

/// Moving the canvas moves its origin by the distances times the scale, from where it was. The
/// scale and everything but the canvas stay as they are.
pub proof fn a_translation_moves_the_origin(
    w: WorldView,
    args: Seq<ValueView>,
    answers: Seq<AnswerView>,
    x: u32,
    y: u32,
)
    requires
        finite_canvas(w.canvas_state),
        is_object(args, 0),
        is_single(args, 1, x),
        is_single(args, 2, y),
        finite_single(x),
        finite_single(y),
    ensures
        ({
            let c = w.canvas_state;
            let (after, r) = graphics::canvas(w, "translate"@, args, answers);
            let d = after.canvas_state;
            &&& r == Ok::<ValueView, ErrorView>(ValueView::Void)
            &&& lands(d.x, c.x, x, c.scale_x)
            &&& lands(d.y, c.y, y, c.scale_y)
            &&& d.scale_x == c.scale_x
            &&& d.scale_y == c.scale_y
            &&& after == WorldView { canvas_state: d, ..w }
        }),
{
    lemma_canvas_methods();
    lemma_lands(w.canvas_state.x, x, w.canvas_state.scale_x);
    lemma_lands(w.canvas_state.y, y, w.canvas_state.scale_y);
}

proof fn lemma_at_scale_one(r: u32, origin: u32, at: u32, sum: u32)
    requires
        lands(r, origin, at, 0x3f80_0000),
        finite_single(at),
        finite_single(sum),
        float::single_worth(sum) == float::single_worth(origin) + float::single_worth(at),
    ensures
        float::single_worth(r) == float::single_worth(sum),
        finite_single(r),
{
    lemma_pow2_pos(23);
    rounding::the_worth_of_a_single(false, 0, 0);
    assert(float::single_worth(at) * pow2(149) == float::single_worth(at) * float::single_worth(
        0x3f80_0000,
    ));
    rounding::the_closest_single_is_exact(r, float::single_worth(sum), 1, sum);
    lemma_same_worth(r, sum);
}

/// The world once a canvas was moved.
pub open spec fn moved_by(
    w: WorldView,
    object: ObjectId,
    x: u32,
    y: u32,
    answers: Seq<AnswerView>,
) -> WorldView {
    graphics::canvas(
        w,
        "translate"@,
        seq![ValueView::Object(object), ValueView::Float(x), ValueView::Float(y)],
        answers,
    ).0
}

/// A canvas that can be moved exactly: at scale one, with sums that singles can hold.
pub open spec fn moves_exactly(w: WorldView, x: u32, y: u32, sum_x: u32, sum_y: u32) -> bool {
    &&& finite_canvas(w.canvas_state)
    &&& w.canvas_state.scale_x == 0x3f80_0000
    &&& w.canvas_state.scale_y == 0x3f80_0000
    &&& finite_single(x) && finite_single(y)
    &&& finite_single(sum_x) && finite_single(sum_y)
    &&& float::single_worth(sum_x) == float::single_worth(w.canvas_state.x) + float::single_worth(
        x,
    )
    &&& float::single_worth(sum_y) == float::single_worth(w.canvas_state.y) + float::single_worth(
        y,
    )
}

proof fn lemma_moved_exactly(
    w: WorldView,
    object: ObjectId,
    x: u32,
    y: u32,
    sum_x: u32,
    sum_y: u32,
    answers: Seq<AnswerView>,
)
    requires
        moves_exactly(w, x, y, sum_x, sum_y),
    ensures
        ({
            let c = moved_by(w, object, x, y, answers).canvas_state;
            &&& finite_canvas(c)
            &&& c.scale_x == 0x3f80_0000
            &&& c.scale_y == 0x3f80_0000
            &&& float::single_worth(c.x) == float::single_worth(sum_x)
            &&& float::single_worth(c.y) == float::single_worth(sum_y)
        }),
{
    let args = seq![ValueView::Object(object), ValueView::Float(x), ValueView::Float(y)];
    a_translation_moves_the_origin(w, args, answers, x, y);
    let c = moved_by(w, object, x, y, answers).canvas_state;
    lemma_at_scale_one(c.x, w.canvas_state.x, x, sum_x);
    lemma_at_scale_one(c.y, w.canvas_state.y, y, sum_y);
}

/// At scale one, two translations leave the origin as far from where it was as both distances
/// together, wherever the sums are exact; so does one translation by their sum.
pub proof fn two_translations_add_up(
    w: WorldView,
    object: ObjectId,
    x: u32,
    y: u32,
    more_x: u32,
    more_y: u32,
    once: (u32, u32),
    both: (u32, u32),
    sum: (u32, u32),
    answers: Seq<AnswerView>,
)
    requires
        moves_exactly(w, x, y, once.0, once.1),
        moves_exactly(w, sum.0, sum.1, both.0, both.1),
        finite_single(more_x) && finite_single(more_y),
        float::single_worth(sum.0) == float::single_worth(x) + float::single_worth(more_x),
        float::single_worth(sum.1) == float::single_worth(y) + float::single_worth(more_y),
    ensures
        ({
            let c = w.canvas_state;
            let once = moved_by(w, object, x, y, answers);
            let twice = moved_by(once, object, more_x, more_y, answers).canvas_state;
            let at_once = moved_by(w, object, sum.0, sum.1, answers).canvas_state;
            &&& float::single_worth(once.canvas_state.x) == float::single_worth(c.x)
                + float::single_worth(x)
            &&& float::single_worth(once.canvas_state.y) == float::single_worth(c.y)
                + float::single_worth(y)
            &&& float::single_worth(twice.x) == float::single_worth(c.x) + float::single_worth(x)
                + float::single_worth(more_x)
            &&& float::single_worth(twice.y) == float::single_worth(c.y) + float::single_worth(y)
                + float::single_worth(more_y)
            &&& float::single_worth(at_once.x) == float::single_worth(twice.x)
            &&& float::single_worth(at_once.y) == float::single_worth(twice.y)
        }),
{
    lemma_moved_exactly(w, object, x, y, once.0, once.1, answers);
    let v = moved_by(w, object, x, y, answers);
    lemma_moved_exactly(v, object, more_x, more_y, both.0, both.1, answers);
    lemma_moved_exactly(w, object, sum.0, sum.1, both.0, both.1, answers);
}

/// Scaling the canvas multiplies its scale, across and down. The origin stays where it is.
pub proof fn a_scaling_multiplies_the_scale(
    w: WorldView,
    args: Seq<ValueView>,
    answers: Seq<AnswerView>,
    x: u32,
    y: u32,
)
    requires
        finite_canvas(w.canvas_state),
        is_object(args, 0),
        is_single(args, 1, x),
        is_single(args, 2, y),
        finite_single(x),
        finite_single(y),
    ensures
        ({
            let c = w.canvas_state;
            let (after, r) = graphics::canvas(w, "scale"@, args, answers);
            let d = after.canvas_state;
            &&& r == Ok::<ValueView, ErrorView>(ValueView::Void)
            &&& d.x == c.x
            &&& d.y == c.y
            &&& stretches(d.scale_x, c.scale_x, x)
            &&& stretches(d.scale_y, c.scale_y, y)
            &&& after == WorldView { canvas_state: d, ..w }
        }),
{
    lemma_canvas_methods();
    rounding::the_product_of_singles_is_closest(w.canvas_state.scale_x, x);
    rounding::the_product_of_singles_is_closest(w.canvas_state.scale_y, y);
}

/// What `save` puts aside `restore` takes up again: the canvas is as it was, whatever moved and
/// scaled it between.
pub proof fn a_canvas_is_restored_as_it_was_saved(
    w: WorldView,
    args: Seq<ValueView>,
    moved: CanvasState,
    answers: Seq<AnswerView>,
)
    requires
        is_object(args, 0),
    ensures
        ({
            let saved = graphics::canvas(w, "save"@, args, answers).0;
            let after = graphics::canvas(
                WorldView { canvas_state: moved, ..saved },
                "restore"@,
                args,
                answers,
            ).0;
            &&& saved.canvas_state == w.canvas_state
            &&& saved.canvas_stack.len() == w.canvas_stack.len() + 1
            &&& after == w
        }),
        w.canvas_stack.len() == 0 ==> graphics::canvas(w, "restore"@, args, answers).0 == w,
{
    lemma_canvas_methods();
    graphics::save_then_restore(w, moved);
}

/// A rectangle is drawn from its upper left corner on, as the canvas places it, as wide and as
/// high as its sides are apart times the scale, and in the colour of the paint, whose bytes are
/// alpha, red, green and blue.
pub proof fn a_rectangle_is_drawn_where_the_canvas_puts_it(
    w: WorldView,
    args: Seq<ValueView>,
    answers: Seq<AnswerView>,
    left: u32,
    top: u32,
    right: u32,
    bottom: u32,
    width: u32,
    height: u32,
    paint: ObjectId,
)
    requires
        finite_canvas(w.canvas_state),
        is_object(args, 0),
        is_single(args, 1, left),
        is_single(args, 2, top),
        is_single(args, 3, right),
        is_single(args, 4, bottom),
        args.len() > 5 && args[5] == ValueView::Object(paint),
        finite_single(left) && finite_single(top) && finite_single(right) && finite_single(bottom),
        finite_single(width) && finite_single(height),
        float::single_worth(width) == float::single_worth(right) - float::single_worth(left),
        float::single_worth(height) == float::single_worth(bottom) - float::single_worth(top),
    ensures
        ({
            let c = w.canvas_state;
            let (after, r) = graphics::canvas(w, "drawRect"@, args, answers);
            let n = match w.field_int(paint, "color"@) {
                Some(n) => if n < 0 {
                    n + 0x1_0000_0000
                } else {
                    n as int
                },
                None => 0xffff_ffff,
            };
            &&& r == Ok::<ValueView, ErrorView>(ValueView::Void)
            &&& after == WorldView { effects: after.effects, ..w }
            &&& after.effects.len() == w.effects.len() + 1
            &&& after.effects.drop_last() == w.effects
            &&& after.effects.last() matches EffectView::DrawQuad { bounds, color } && {
                &&& lands(bounds.x, c.x, left, c.scale_x)
                &&& lands(bounds.y, c.y, top, c.scale_y)
                &&& stretches(bounds.width, width, c.scale_x)
                &&& stretches(bounds.height, height, c.scale_y)
                &&& color.a * 0x100_0000 + color.r * 0x1_0000 + color.g * 0x100 + color.b == n
            }
        }),
{
    lemma_canvas_methods();
    let c = w.canvas_state;
    lemma_lands(c.x, left, c.scale_x);
    lemma_lands(c.y, top, c.scale_y);
    let across = arith::single_difference(right, left);
    let down = arith::single_difference(bottom, top);
    rounding::the_difference_of_singles_is_closest(right, left);
    rounding::the_difference_of_singles_is_closest(bottom, top);
    rounding::the_closest_single_is_exact(across, float::single_worth(width), 1, width);
    rounding::the_closest_single_is_exact(down, float::single_worth(height), 1, height);
    lemma_same_worth(across, width);
    lemma_same_worth(down, height);
    rounding::the_product_of_singles_is_closest(across, c.scale_x);
    rounding::the_product_of_singles_is_closest(down, c.scale_y);
    let (after, r) = graphics::canvas(w, "drawRect"@, args, answers);
    assert(after.effects.drop_last() =~= w.effects);
    let argb: u32 = match w.field_int(paint, "color"@) {
        Some(n) => n as u32,
        None => 0xffff_ffff,
    };
    color::lemma_from_bytes(argb as int);
    match w.field_int(paint, "color"@) {
        Some(n) => {
            assert(n < 0 ==> (n as u32) == n + 0x1_0000_0000) by (bit_vector);
        },
        None => {},
    }
}

/// A bitmap is drawn where the canvas puts it, and as large as its image times the scale.
pub proof fn a_bitmap_is_drawn_where_the_canvas_puts_it(
    w: WorldView,
    args: Seq<ValueView>,
    x: u32,
    y: u32,
    bitmap: ObjectId,
    path: Seq<char>,
    width: u32,
    height: u32,
)
    requires
        finite_canvas(w.canvas_state),
        is_object(args, 0),
        args.len() > 1 && args[1] == ValueView::Object(bitmap),
        is_single(args, 2, x),
        is_single(args, 3, y),
        finite_single(x) && finite_single(y),
        w.field_text(bitmap, "path"@) == Some(path),
        width < 0x100_0000,
        height < 0x100_0000,
    ensures
        ({
            let c = w.canvas_state;
            let answers = seq![AnswerView::Size(Some((width, height)))];
            let (after, r) = graphics::canvas(w, "drawBitmap"@, args, answers);
            &&& graphics::canvas_question(w, "drawBitmap"@, args, Seq::empty()) == Some(
                host::QueryView::Image(path),
            )
            &&& r == Ok::<ValueView, ErrorView>(ValueView::Void)
            &&& after == WorldView { effects: after.effects, ..w }
            &&& after.effects.len() == w.effects.len() + 4
            &&& after.effects[w.effects.len() as int] == EffectView::UploadImage(path)
            &&& after.effects.last() matches EffectView::DrawTexture { bounds, color } && {
                &&& lands(bounds.x, c.x, x, c.scale_x)
                &&& lands(bounds.y, c.y, y, c.scale_y)
                &&& closest_single(bounds.width, width * float::single_worth(c.scale_x), 1)
                &&& closest_single(bounds.height, height * float::single_worth(c.scale_y), 1)
            }
        }),
{
    let c = w.canvas_state;
    let answers = seq![AnswerView::Size(Some((width, height)))];
    lemma_lands(c.x, x, c.scale_x);
    lemma_lands(c.y, y, c.scale_y);
    conversions::a_short_integer_is_exact_as_a_single(width as int);
    conversions::a_short_integer_is_exact_as_a_single(height as int);
    let (p, q) = (float::int_as_single(width as int), float::int_as_single(height as int));
    rounding::the_product_of_singles_is_closest(p, c.scale_x);
    rounding::the_product_of_singles_is_closest(q, c.scale_y);
    lemma_pow2_pos(149);
    let one = pow2(149) as int;
    let (sx, sy) = (float::single_worth(c.scale_x), float::single_worth(c.scale_y));
    assert((width * one) * sx == (width * sx) * one) by (nonlinear_arith);
    assert((height * one) * sy == (height * sy) * one) by (nonlinear_arith);
    assert(1 * one == one);
    lemma_reduced(arith::single_product(p, c.scale_x), width * sx, 1, one);
    lemma_reduced(arith::single_product(q, c.scale_y), height * sy, 1, one);
    assert(host::size_in(answers, 0) == Some((width, height)));
}

} // verus!
