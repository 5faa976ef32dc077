//! Drawing: canvas, paint, colours and bitmaps.

use vstd::prelude::*;

use crate::arith;
use crate::color;
use crate::color::{opaque_color, unpack_argb_color};
use crate::convert;
use crate::convert::{float_arg, int_arg, object_arg};
use crate::error;
use crate::error::{ErrorView, VmError};
use crate::float;
use crate::framework::system::gives;
use crate::host;
use crate::host::{AnswerView, Answers, Bounds, Effect, EffectView, Query, QueryView};
use crate::ops;
use crate::table;
use crate::text;
use crate::value;
use crate::value::{ObjectId, Value, ValueView};
use crate::world;
use crate::world::{find_numbered, CanvasState, Effected, World, WorldView};

verus! {

pub const BLEND: u32 = 0x0be2;

pub const SRC_ALPHA: u32 = 0x0302;

pub const ONE_MINUS_SRC_ALPHA: u32 = 0x0303;

// `android.graphics.Canvas`.

/// A coordinate as the canvas places it.
pub open spec fn placed(origin: u32, at: u32, scale: u32) -> u32 {
    arith::single_sum(origin, arith::single_product(at, scale))
}

fn place(origin: u32, at: u32, scale: u32) -> (r: u32)
    ensures
        r == placed(origin, at, scale),
{
    arith::single_add(origin, arith::single_multiply(at, scale))
}

/// The bitmap, its place and its path, where `drawBitmap` has all of them.
pub open spec fn bitmap_to_draw(w: WorldView, args: Seq<ValueView>) -> Result<
    (u32, u32, Option<Seq<char>>),
    ErrorView,
> {
    match convert::reference_arg(args, 1) {
        Err(e) => Err(e),
        Ok(bitmap) => match convert::single_arg(args, 2) {
            Err(e) => Err(e),
            Ok(x) => match convert::single_arg(args, 3) {
                Err(e) => Err(e),
                Ok(y) => Ok((x, y, w.field_text(bitmap, "path"@))),
            },
        },
    }
}

pub open spec fn drawable_bitmap(
    r: Result<(u32, u32, Option<String>), VmError>,
) -> Result<(u32, u32, Option<Seq<char>>), ErrorView> {
    match r {
        Ok((x, y, path)) => Ok((x, y, world::some_string(path))),
        Err(e) => Err(e@),
    }
}

fn find_bitmap(w: &World, args: &Vec<Value>) -> (r: Result<(u32, u32, Option<String>), VmError>)
    ensures
        drawable_bitmap(r) == bitmap_to_draw(w@, value::views(args@)),
{
    let bitmap = object_arg(args, 1)?;
    let x = float_arg(args, 2)?;
    let y = float_arg(args, 3)?;
    Ok((x, y, w.object_field_string(bitmap, "path")))
}

/// Whether the image can be drawn is asked for.
pub open spec fn canvas_question(
    w: WorldView,
    method: Seq<char>,
    args: Seq<ValueView>,
    answers: Seq<AnswerView>,
) -> Option<QueryView> {
    if answers.len() == 0 && method == "drawBitmap"@ && convert::reference_arg(args, 0) is Ok {
        match bitmap_to_draw(w, args) {
            Ok((_, _, Some(path))) => Some(QueryView::Image(path)),
            _ => None,
        }
    } else {
        None
    }
}

pub fn ask_canvas(w: &World, method: &str, args: &Vec<Value>, answers: &Answers) -> (r: Option<
    Query,
>)
    ensures
        host::asked(r) == canvas_question(
            w@,
            method@,
            value::views(args@),
            host::answers_view(answers@),
        ),
{
    if answers.len() == 0 && text::same(method, "drawBitmap") && object_arg(args, 0).is_ok() {
        match find_bitmap(w, args) {
            Ok((_, _, Some(path))) => Some(Query::Image(path)),
            _ => None,
        }
    } else {
        None
    }
}

pub open spec fn draw_bitmap(
    w: WorldView,
    args: Seq<ValueView>,
    answers: Seq<AnswerView>,
) -> Effected {
    match bitmap_to_draw(w, args) {
        Err(e) => (w, Err(e)),
        Ok((x, y, path)) => match (path, host::size_in(answers, 0)) {
            (Some(path), Some((width, height))) => {
                let c = w.canvas_state;
                gives(
                    w.did(EffectView::UploadImage(path)).did(EffectView::Enable(BLEND)).did(
                        EffectView::BlendFunc(SRC_ALPHA, ONE_MINUS_SRC_ALPHA),
                    ).did(
                        EffectView::DrawTexture {
                            bounds: Bounds {
                                x: placed(c.x, x, c.scale_x),
                                y: placed(c.y, y, c.scale_y),
                                width: arith::single_product(
                                    float::int_as_single(width as int),
                                    c.scale_x,
                                ),
                                height: arith::single_product(
                                    float::int_as_single(height as int),
                                    c.scale_y,
                                ),
                            },
                            color: color::opaque_of(255, 255, 255),
                        },
                    ),
                    ValueView::Void,
                )
            },
            _ => gives(w, ValueView::Void),
        },
    }
}

fn call_draw_bitmap(w: &mut World, args: &Vec<Value>, answers: &Answers) -> (r: Result<
    Value,
    VmError,
>)
    ensures
        (final(w)@, error::outcome(r)) == draw_bitmap(
            old(w)@,
            value::views(args@),
            host::answers_view(answers@),
        ),
{
    let (x, y, path) = find_bitmap(w, args)?;
    match (path, host::get_size(answers, 0)) {
        (Some(path), Some((width, height))) => {
            let c = w.canvas_state;
            w.perform(Effect::UploadImage(path));
            w.perform(Effect::Enable(BLEND));
            w.perform(Effect::BlendFunc(SRC_ALPHA, ONE_MINUS_SRC_ALPHA));
            let bounds = Bounds {
                x: place(c.x, x, c.scale_x),
                y: place(c.y, y, c.scale_y),
                width: arith::single_multiply(float::count_to_single(width as u64), c.scale_x),
                height: arith::single_multiply(float::count_to_single(height as u64), c.scale_y),
            };
            w.perform(Effect::DrawTexture { bounds, color: opaque_color(255, 255, 255) });
        },
        _ => {},
    }
    Ok(Value::Void)
}

pub open spec fn draw_rect(w: WorldView, args: Seq<ValueView>) -> Effected {
    match convert::reference_arg(args, 5) {
        Err(e) => (w, Err(e)),
        Ok(paint) => match convert::single_arg(args, 1) {
            Err(e) => (w, Err(e)),
            Ok(left) => match convert::single_arg(args, 2) {
                Err(e) => (w, Err(e)),
                Ok(top) => match convert::single_arg(args, 3) {
                    Err(e) => (w, Err(e)),
                    Ok(right) => match convert::single_arg(args, 4) {
                        Err(e) => (w, Err(e)),
                        Ok(bottom) => {
                            let c = w.canvas_state;
                            let argb = match w.field_int(paint, "color"@) {
                                Some(n) => n as u32,
                                None => 0xffff_ffff,
                            };
                            gives(
                                w.did(
                                    EffectView::DrawQuad {
                                        bounds: Bounds {
                                            x: placed(c.x, left, c.scale_x),
                                            y: placed(c.y, top, c.scale_y),
                                            width: arith::single_product(
                                                arith::single_difference(right, left),
                                                c.scale_x,
                                            ),
                                            height: arith::single_product(
                                                arith::single_difference(bottom, top),
                                                c.scale_y,
                                            ),
                                        },
                                        color: color::argb(argb),
                                    },
                                ),
                                ValueView::Void,
                            )
                        },
                    },
                },
            },
        },
    }
}

fn call_draw_rect(w: &mut World, args: &Vec<Value>) -> (r: Result<Value, VmError>)
    ensures
        (final(w)@, error::outcome(r)) == draw_rect(old(w)@, value::views(args@)),
{
    let paint = object_arg(args, 5)?;
    let argb: u32 = match w.object_field_int(paint, "color") {
        Some(n) => n as u32,
        None => 0xffff_ffff,
    };
    let left = float_arg(args, 1)?;
    let top = float_arg(args, 2)?;
    let right = float_arg(args, 3)?;
    let bottom = float_arg(args, 4)?;
    let c = w.canvas_state;
    let bounds = Bounds {
        x: place(c.x, left, c.scale_x),
        y: place(c.y, top, c.scale_y),
        width: arith::single_multiply(arith::single_subtract(right, left), c.scale_x),
        height: arith::single_multiply(arith::single_subtract(bottom, top), c.scale_y),
    };
    w.perform(Effect::DrawQuad { bounds, color: unpack_argb_color(argb) });
    Ok(Value::Void)
}

pub open spec fn drawn_from(w: WorldView, state: CanvasState) -> WorldView {
    WorldView { canvas_state: state, ..w }
}

/// `save` puts the state of the canvas aside, and gives how many have been.
pub open spec fn save(w: WorldView) -> Effected {
    let stack = w.canvas_stack.push(w.canvas_state);
    gives(WorldView { canvas_stack: stack, ..w }, ValueView::Int(stack.len() as i32))
}

/// `restore` takes up the state that was put aside last.
pub open spec fn restore(w: WorldView) -> Effected {
    if w.canvas_stack.len() > 0 {
        gives(
            WorldView {
                canvas_state: w.canvas_stack.last(),
                canvas_stack: w.canvas_stack.drop_last(),
                ..w
            },
            ValueView::Void,
        )
    } else {
        gives(w, ValueView::Void)
    }
}

/// What was saved is restored, whatever was drawn between.
pub proof fn save_then_restore(w: WorldView, state: CanvasState)
    ensures
        ({
            let after = restore(drawn_from(save(w).0, state)).0;
            &&& after.canvas_state == w.canvas_state
            &&& after.canvas_stack == w.canvas_stack
        }),
{
    assert(w.canvas_stack.push(w.canvas_state).drop_last() =~= w.canvas_stack);
}

/// Moving the canvas: the first coordinate moves also where the second is no number.
pub open spec fn translate(w: WorldView, args: Seq<ValueView>) -> Effected {
    let c = w.canvas_state;
    match convert::single_arg(args, 1) {
        Err(e) => (w, Err(e)),
        Ok(x) => {
            let moved = CanvasState { x: placed(c.x, x, c.scale_x), ..c };
            match convert::single_arg(args, 2) {
                Err(e) => (drawn_from(w, moved), Err(e)),
                Ok(y) => gives(
                    drawn_from(w, CanvasState { y: placed(c.y, y, c.scale_y), ..moved }),
                    ValueView::Void,
                ),
            }
        },
    }
}

pub open spec fn rescale(w: WorldView, args: Seq<ValueView>) -> Effected {
    let c = w.canvas_state;
    match convert::single_arg(args, 1) {
        Err(e) => (w, Err(e)),
        Ok(x) => {
            let scaled = CanvasState { scale_x: arith::single_product(c.scale_x, x), ..c };
            match convert::single_arg(args, 2) {
                Err(e) => (drawn_from(w, scaled), Err(e)),
                Ok(y) => gives(
                    drawn_from(
                        w,
                        CanvasState { scale_y: arith::single_product(c.scale_y, y), ..scaled },
                    ),
                    ValueView::Void,
                ),
            }
        },
    }
}

pub open spec fn canvas(
    w: WorldView,
    method: Seq<char>,
    args: Seq<ValueView>,
    answers: Seq<AnswerView>,
) -> Effected {
    match convert::reference_arg(args, 0) {
        Err(e) => (w, Err(e)),
        Ok(_) => if method == "drawBitmap"@ {
            draw_bitmap(w, args, answers)
        } else if method == "drawRect"@ {
            draw_rect(w, args)
        } else if method == "save"@ {
            save(w)
        } else if method == "restore"@ {
            restore(w)
        } else if method == "translate"@ {
            translate(w, args)
        } else if method == "scale"@ {
            rescale(w, args)
        } else {
            gives(w, ValueView::Void)
        },
    }
}

fn call_translate(w: &mut World, args: &Vec<Value>) -> (r: Result<Value, VmError>)
    ensures
        (final(w)@, error::outcome(r)) == translate(old(w)@, value::views(args@)),
{
    let x = float_arg(args, 1)?;
    w.canvas_state.x = place(w.canvas_state.x, x, w.canvas_state.scale_x);
    let y = float_arg(args, 2)?;
    w.canvas_state.y = place(w.canvas_state.y, y, w.canvas_state.scale_y);
    Ok(Value::Void)
}

fn call_rescale(w: &mut World, args: &Vec<Value>) -> (r: Result<Value, VmError>)
    ensures
        (final(w)@, error::outcome(r)) == rescale(old(w)@, value::views(args@)),
{
    let x = float_arg(args, 1)?;
    w.canvas_state.scale_x = arith::single_multiply(w.canvas_state.scale_x, x);
    let y = float_arg(args, 2)?;
    w.canvas_state.scale_y = arith::single_multiply(w.canvas_state.scale_y, y);
    Ok(Value::Void)
}

pub fn call_canvas(w: &mut World, method: &str, args: &Vec<Value>, answers: &Answers) -> (r: Result<
    Value,
    VmError,
>)
    ensures
        (final(w)@, error::outcome(r)) == canvas(
            old(w)@,
            method@,
            value::views(args@),
            host::answers_view(answers@),
        ),
{
    let _ = object_arg(args, 0)?;
    if text::same(method, "drawBitmap") {
        call_draw_bitmap(w, args, answers)
    } else if text::same(method, "drawRect") {
        call_draw_rect(w, args)
    } else if text::same(method, "save") {
        w.canvas_stack.push(w.canvas_state);
        Ok(Value::Int(w.canvas_stack.len() as i32))
    } else if text::same(method, "restore") {
        match w.canvas_stack.pop() {
            Some(state) => {
                w.canvas_state = state;
            },
            None => {},
        }
        Ok(Value::Void)
    } else if text::same(method, "translate") {
        call_translate(w, args)
    } else if text::same(method, "scale") {
        call_rescale(w, args)
    } else {
        Ok(Value::Void)
    }
}

// `android.graphics.Paint`.

/// Half the size of the text for each character.
pub open spec fn text_width(count: nat, size: u32) -> u32 {
    arith::single_product(
        arith::single_product(float::int_as_single(count as int), size),
        0x3f00_0000,
    )
}

pub open spec fn paint(w: WorldView, method: Seq<char>, args: Seq<ValueView>) -> Effected {
    match convert::reference_arg(args, 0) {
        Err(e) => (w, Err(e)),
        Ok(receiver) => if method == "setColor"@ {
            match convert::integer_arg(args, 1) {
                Err(e) => (w, Err(e)),
                Ok(n) => gives(w.with_field(receiver, "color"@, ValueView::Int(n)), ValueView::Void),
            }
        } else if method == "setTextSize"@ {
            match convert::single_arg(args, 1) {
                Err(e) => (w, Err(e)),
                Ok(n) => gives(
                    w.with_field(receiver, "text_size"@, ValueView::Float(n)),
                    ValueView::Void,
                ),
            }
        } else if method == "measureText"@ {
            let size = match w.field_single(receiver, "text_size"@) {
                Some(n) => n,
                None => 0x4140_0000,
            };
            gives(w, ValueView::Float(text_width(w.text_at(args, 1).len(), size)))
        } else {
            gives(w, ValueView::Void)
        },
    }
}

pub fn call_paint(w: &mut World, method: &str, args: &Vec<Value>) -> (r: Result<Value, VmError>)
    ensures
        (final(w)@, error::outcome(r)) == paint(old(w)@, method@, value::views(args@)),
{
    let receiver = object_arg(args, 0)?;
    if text::same(method, "setColor") {
        let n = int_arg(args, 1)?;
        w.set_object_field(receiver, "color", Value::Int(n));
        Ok(Value::Void)
    } else if text::same(method, "setTextSize") {
        let n = float_arg(args, 1)?;
        w.set_object_field(receiver, "text_size", Value::Float(n));
        Ok(Value::Void)
    } else if text::same(method, "measureText") {
        let size: u32 = match w.object_field_float(receiver, "text_size") {
            Some(n) => n,
            None => 0x4140_0000,
        };
        let count = w.string_or_empty(args, 1).as_str().unicode_len();
        let width = arith::single_multiply(float::count_to_single(count as u64), size);
        Ok(Value::Float(arith::single_multiply(width, 0x3f00_0000)))
    } else {
        Ok(Value::Void)
    }
}

// `android.graphics.Color`.

/// The lowest byte of an integer.
pub open spec fn low_eight(n: i32) -> int {
    n as int % 0x100
}

fn low_byte(n: i32) -> (r: i64)
    ensures
        r == low_eight(n),
        0 <= r < 0x100,
{
    let m: i64 = n as i64 % 0x100;
    if m < 0 {
        m + 0x100
    } else {
        m
    }
}

pub open spec fn mixed(a: int, r: int, g: int, b: int) -> ValueView {
    ValueView::Int(
        ops::signed32(a * 0x100_0000 + r * 0x1_0000 + g * 0x100 + b) as i32,
    )
}

fn mix(a: i64, r: i64, g: i64, b: i64) -> (v: Value)
    requires
        0 <= a < 0x100,
        0 <= r < 0x100,
        0 <= g < 0x100,
        0 <= b < 0x100,
    ensures
        v@ == mixed(a as int, r as int, g as int, b as int),
{
    let n: i64 = a * 0x100_0000 + r * 0x1_0000 + g * 0x100 + b;
    Value::Int(ops::as_signed(n as u32))
}

pub open spec fn mix_color(method: Seq<char>, args: Seq<ValueView>) -> Result<
    ValueView,
    ErrorView,
> {
    if method == "rgb"@ || method == "argb"@ {
        match convert::integer_arg(args, 0) {
            Err(e) => Err(e),
            Ok(x) => match convert::integer_arg(args, 1) {
                Err(e) => Err(e),
                Ok(y) => match convert::integer_arg(args, 2) {
                    Err(e) => Err(e),
                    Ok(z) => if method == "rgb"@ {
                        Ok(mixed(0xff, low_eight(x), low_eight(y), low_eight(z)))
                    } else {
                        match convert::integer_arg(args, 3) {
                            Err(e) => Err(e),
                            Ok(u) => Ok(
                                mixed(low_eight(x), low_eight(y), low_eight(z), low_eight(u)),
                            ),
                        }
                    },
                },
            },
        }
    } else {
        Ok(ValueView::Int((-1) as i32))
    }
}

pub fn call_color(method: &str, args: &Vec<Value>) -> (r: Result<Value, VmError>)
    ensures
        error::outcome(r) == mix_color(method@, value::views(args@)),
{
    if text::same(method, "rgb") || text::same(method, "argb") {
        let x = int_arg(args, 0)?;
        let y = int_arg(args, 1)?;
        let z = int_arg(args, 2)?;
        if text::same(method, "rgb") {
            Ok(mix(0xff, low_byte(x), low_byte(y), low_byte(z)))
        } else {
            let u = int_arg(args, 3)?;
            Ok(mix(low_byte(x), low_byte(y), low_byte(z), low_byte(u)))
        }
    } else {
        Ok(Value::Int(-1))
    }
}

// Bitmaps.

/// The image of a bitmap resource, where there is one.
pub open spec fn resource_image(w: WorldView, args: Seq<ValueView>) -> Option<Seq<char>> {
    match convert::integer_arg(args, 1) {
        Err(_) => None,
        Ok(id) => table::lookup(w.framework.resource_images, id as u32),
    }
}

fn find_image(w: &World, args: &Vec<Value>) -> (r: Option<String>)
    ensures
        world::some_string(r) == resource_image(w@, value::views(args@)),
{
    match int_arg(args, 1) {
        Err(_) => None,
        Ok(id) => match find_numbered(&w.framework.resource_images, id as u32) {
            Some(s) => Some(s.clone()),
            None => None,
        },
    }
}

/// The size of the image is asked for.
pub open spec fn factory_question(
    w: WorldView,
    method: Seq<char>,
    args: Seq<ValueView>,
    answers: Seq<AnswerView>,
) -> Option<QueryView> {
    if answers.len() == 0 && method == "decodeResource"@ {
        match resource_image(w, args) {
            Some(path) => Some(QueryView::ImageSize(path)),
            None => None,
        }
    } else {
        None
    }
}

pub fn ask_factory(w: &World, method: &str, args: &Vec<Value>, answers: &Answers) -> (r: Option<
    Query,
>)
    ensures
        host::asked(r) == factory_question(
            w@,
            method@,
            value::views(args@),
            host::answers_view(answers@),
        ),
{
    if answers.len() == 0 && text::same(method, "decodeResource") {
        match find_image(w, args) {
            Some(path) => Some(Query::ImageSize(path)),
            None => None,
        }
    } else {
        None
    }
}

/// A bitmap for a resource: of the size of its image, or of 320 by 480.
pub open spec fn resource_bitmap(
    w: WorldView,
    path: Option<Seq<char>>,
    size: Option<(u32, u32)>,
) -> WorldView {
    match path {
        None => w.bitmap(320, 480),
        Some(path) => {
            let after = match size {
                Some((width, height)) => w.bitmap(width as i32, height as i32),
                None => w.bitmap(320, 480),
            };
            after.with_field(w.fresh(), "path"@, ValueView::String(path))
        },
    }
}

fn alloc_resource_bitmap(w: &mut World, path: Option<String>, size: Option<(u32, u32)>) -> (r:
    ObjectId)
    ensures
        final(w)@ == resource_bitmap(old(w)@, world::some_string(path), size),
        r == old(w)@.fresh(),
{
    match path {
        None => w.alloc_bitmap(320, 480),
        Some(path) => {
            let id = match size {
                Some((width, height)) => w.alloc_bitmap(width as i32, height as i32),
                None => w.alloc_bitmap(320, 480),
            };
            w.set_object_field(id, "path", Value::String(path));
            id
        },
    }
}

/// `android.graphics.BitmapFactory`.
pub open spec fn factory(
    w: WorldView,
    method: Seq<char>,
    args: Seq<ValueView>,
    answers: Seq<AnswerView>,
) -> Effected {
    if method == "decodeResource"@ {
        match convert::integer_arg(args, 1) {
            Err(e) => (w, Err(e)),
            Ok(_) => gives(
                resource_bitmap(w, resource_image(w, args), host::size_in(answers, 0)),
                ValueView::Object(w.fresh()),
            ),
        }
    } else if method == "decodeStream"@ || method == "decodeFile"@ {
        gives(w.bitmap(320, 480), ValueView::Object(w.fresh()))
    } else {
        gives(w, ValueView::Null)
    }
}

pub fn call_factory(w: &mut World, method: &str, args: &Vec<Value>, answers: &Answers) -> (r: Result<
    Value,
    VmError,
>)
    ensures
        (final(w)@, error::outcome(r)) == factory(
            old(w)@,
            method@,
            value::views(args@),
            host::answers_view(answers@),
        ),
{
    if text::same(method, "decodeResource") {
        let _ = int_arg(args, 1)?;
        let path = find_image(w, args);
        let id = alloc_resource_bitmap(w, path, host::get_size(answers, 0));
        Ok(Value::Object(id))
    } else if text::same(method, "decodeStream") || text::same(method, "decodeFile") {
        let id = w.alloc_bitmap(320, 480);
        Ok(Value::Object(id))
    } else {
        Ok(Value::Null)
    }
}

pub open spec fn int_or(v: Option<i32>, otherwise: i32) -> i32 {
    match v {
        Some(n) => n,
        None => otherwise,
    }
}

/// A dimension of the bitmap that is the first argument.
pub open spec fn dimension(w: WorldView, args: Seq<ValueView>, name: Seq<char>, otherwise: i32) -> ValueView {
    match convert::reference_arg(args, 0) {
        Ok(id) => ValueView::Int(int_or(w.field_int(id, name), otherwise)),
        Err(_) => ValueView::Int(otherwise),
    }
}

fn int_field_or(w: &World, id: ObjectId, name: &str, otherwise: i32) -> (r: i32)
    ensures
        r == int_or(w@.field_int(id, name@), otherwise),
{
    match w.object_field_int(id, name) {
        Some(n) => n,
        None => otherwise,
    }
}

fn get_dimension(w: &World, args: &Vec<Value>, name: &str, otherwise: i32) -> (r: Value)
    ensures
        r@ == dimension(w@, value::views(args@), name@, otherwise),
{
    match object_arg(args, 0) {
        Ok(id) => Value::Int(int_field_or(w, id, name, otherwise)),
        Err(_) => Value::Int(otherwise),
    }
}

/// `android.graphics.Bitmap`.
pub open spec fn bitmap(w: WorldView, method: Seq<char>, args: Seq<ValueView>) -> Effected {
    if method == "createBitmap"@ {
        match convert::reference_arg(args, 0) {
            Err(e) => (w, Err(e)),
            Ok(source) => gives(
                w.bitmap(
                    int_or(w.field_int(source, "width"@), 320),
                    int_or(w.field_int(source, "height"@), 480),
                ).copied_drawable(source, w.fresh()),
                ValueView::Object(w.fresh()),
            ),
        }
    } else if method == "getWidth"@ {
        gives(w, dimension(w, args, "width"@, 320))
    } else if method == "getHeight"@ {
        gives(w, dimension(w, args, "height"@, 480))
    } else if method == "isRecycled"@ {
        gives(w, ValueView::Int(0))
    } else if method == "getDensity"@ {
        gives(w, ValueView::Int(160))
    } else if method == "hasAlpha"@ {
        gives(w, ValueView::Int(1))
    } else {
        gives(w, ValueView::Void)
    }
}

pub fn call_bitmap(w: &mut World, method: &str, args: &Vec<Value>) -> (r: Result<Value, VmError>)
    ensures
        (final(w)@, error::outcome(r)) == bitmap(old(w)@, method@, value::views(args@)),
{
    if text::same(method, "createBitmap") {
        let source = object_arg(args, 0)?;
        let width = int_field_or(w, source, "width", 320);
        let height = int_field_or(w, source, "height", 480);
        let id = w.alloc_bitmap(width, height);
        w.copy_drawable_fields(source, id);
        Ok(Value::Object(id))
    } else if text::same(method, "getWidth") {
        Ok(get_dimension(w, args, "width", 320))
    } else if text::same(method, "getHeight") {
        Ok(get_dimension(w, args, "height", 480))
    } else if text::same(method, "isRecycled") {
        Ok(Value::Int(0))
    } else if text::same(method, "getDensity") {
        Ok(Value::Int(160))
    } else if text::same(method, "hasAlpha") {
        Ok(Value::Int(1))
    } else {
        Ok(Value::Void)
    }
}

} // verus!
