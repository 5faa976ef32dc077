//! The drawing interface.

use vstd::prelude::*;

use crate::arith;
use crate::color::Rgba8;
use crate::convert;
use crate::convert::{float_arg, int_arg};
use crate::error;
use crate::error::{ErrorView, VmError};
use crate::float;
use crate::framework::dispatch::effected;
use crate::framework::system::gives;
use crate::host::{Effect, EffectView};
use crate::text;
use crate::value;
use crate::value::{Value, ValueView};
use crate::world::{max_int, Effected, World, WorldView};

verus! {

/// A part of a colour between 0 and 1 as a byte.
pub open spec fn unit_byte(f: u32) -> u8 {
    float::single_as(arith::single_product(f, 0x437f_0000), 0, 255) as u8
}

pub fn to_byte(f: u32) -> (r: u8)
    ensures
        r == unit_byte(f),
{
    let n = float::single_to_int(arith::single_multiply(f, 0x437f_0000));
    if n < 0 {
        0
    } else if n > 255 {
        255
    } else {
        n as u8
    }
}

/// A colour from four arguments.
pub open spec fn color_from(args: Seq<ValueView>, index: int) -> Result<Rgba8, ErrorView> {
    match convert::single_arg(args, index) {
        Err(e) => Err(e),
        Ok(r) => match convert::single_arg(args, index + 1) {
            Err(e) => Err(e),
            Ok(g) => match convert::single_arg(args, index + 2) {
                Err(e) => Err(e),
                Ok(b) => match convert::single_arg(args, index + 3) {
                    Err(e) => Err(e),
                    Ok(a) => Ok(
                        Rgba8 {
                            r: unit_byte(r),
                            g: unit_byte(g),
                            b: unit_byte(b),
                            a: unit_byte(a),
                        },
                    ),
                },
            },
        },
    }
}

pub fn read_color(args: &Vec<Value>, index: usize) -> (r: Result<Rgba8, VmError>)
    requires
        index + 3 <= usize::MAX,
    ensures
        convert::err_of(r) == color_from(value::views(args@), index as int),
{
    let r = float_arg(args, index)?;
    let g = float_arg(args, index + 1)?;
    let b = float_arg(args, index + 2)?;
    let a = float_arg(args, index + 3)?;
    Ok(Rgba8 { r: to_byte(r), g: to_byte(g), b: to_byte(b), a: to_byte(a) })
}

/// Methods that do nothing, of both interfaces.
pub open spec fn quiet(method: Seq<char>) -> bool {
    method == "glLoadIdentity"@ || method == "glLoadMatrixf"@ || method == "glMatrixMode"@
        || method == "glTexImage2D"@ || method == "glTexParameterf"@ || method
        == "glTexSubImage2D"@ || method == "glCompressedTexImage2D"@ || method
        == "glPixelStorei"@ || method == "glDepthMask"@ || method == "glScissor"@ || method
        == "glActiveTexture"@ || method == "glGenTextures"@ || method == "glDeleteTextures"@
}

/// Methods that do nothing, of the fixed pipeline alone.
pub open spec fn quiet_pipeline(method: Seq<char>) -> bool {
    method == "glClientActiveTexture"@ || method == "glEnableClientState"@ || method
        == "glDisableClientState"@ || method == "glVertexPointer"@ || method == "glColorPointer"@
        || method == "glTexCoordPointer"@ || method == "glNormalPointer"@ || method
        == "glMaterialfv"@ || method == "glPointSize"@
}

fn is_quiet(method: &str) -> (r: bool)
    ensures
        r == quiet(method@),
{
    text::same(method, "glLoadIdentity") || text::same(method, "glLoadMatrixf") || text::same(
        method,
        "glMatrixMode",
    ) || text::same(method, "glTexImage2D") || text::same(method, "glTexParameterf") || text::same(
        method,
        "glTexSubImage2D",
    ) || text::same(method, "glCompressedTexImage2D") || text::same(method, "glPixelStorei")
        || text::same(method, "glDepthMask") || text::same(method, "glScissor") || text::same(
        method,
        "glActiveTexture",
    ) || text::same(method, "glGenTextures") || text::same(method, "glDeleteTextures")
}

fn is_quiet_pipeline(method: &str) -> (r: bool)
    ensures
        r == quiet_pipeline(method@),
{
    text::same(method, "glClientActiveTexture") || text::same(method, "glEnableClientState")
        || text::same(method, "glDisableClientState") || text::same(method, "glVertexPointer")
        || text::same(method, "glColorPointer") || text::same(method, "glTexCoordPointer")
        || text::same(method, "glNormalPointer") || text::same(method, "glMaterialfv")
        || text::same(method, "glPointSize")
}

pub open spec fn with_one(w: WorldView, method: Seq<char>, args: Seq<ValueView>) -> Effected {
    match convert::integer_arg(args, 1) {
        Err(e) => (w, Err(e)),
        Ok(a) => gives(
            w.did(
                if method == "glClear"@ {
                    EffectView::Clear(a as u32)
                } else if method == "glEnable"@ {
                    EffectView::Enable(a as u32)
                } else {
                    EffectView::Disable(a as u32)
                },
            ),
            ValueView::Void,
        ),
    }
}

fn call_with_one(w: &mut World, method: &str, args: &Vec<Value>) -> (r: Result<Value, VmError>)
    ensures
        (final(w)@, error::outcome(r)) == with_one(old(w)@, method@, value::views(args@)),
{
    let a = int_arg(args, 1)?;
    if text::same(method, "glClear") {
        w.perform(Effect::Clear(a as u32));
    } else if text::same(method, "glEnable") {
        w.perform(Effect::Enable(a as u32));
    } else {
        w.perform(Effect::Disable(a as u32));
    }
    Ok(Value::Void)
}

pub open spec fn with_two(w: WorldView, method: Seq<char>, args: Seq<ValueView>) -> Effected {
    match convert::integer_arg(args, 1) {
        Err(e) => (w, Err(e)),
        Ok(a) => match convert::integer_arg(args, 2) {
            Err(e) => (w, Err(e)),
            Ok(b) => gives(
                w.did(
                    if method == "glBlendFunc"@ {
                        EffectView::BlendFunc(a as u32, b as u32)
                    } else {
                        EffectView::BindTexture(a as u32, b as u32)
                    },
                ),
                ValueView::Void,
            ),
        },
    }
}

fn call_with_two(w: &mut World, method: &str, args: &Vec<Value>) -> (r: Result<Value, VmError>)
    ensures
        (final(w)@, error::outcome(r)) == with_two(old(w)@, method@, value::views(args@)),
{
    let a = int_arg(args, 1)?;
    let b = int_arg(args, 2)?;
    if text::same(method, "glBlendFunc") {
        w.perform(Effect::BlendFunc(a as u32, b as u32));
    } else {
        w.perform(Effect::BindTexture(a as u32, b as u32));
    }
    Ok(Value::Void)
}

pub open spec fn with_three(w: WorldView, method: Seq<char>, args: Seq<ValueView>) -> Effected {
    match convert::integer_arg(args, 1) {
        Err(e) => (w, Err(e)),
        Ok(a) => match convert::integer_arg(args, 2) {
            Err(e) => (w, Err(e)),
            Ok(b) => match convert::integer_arg(args, 3) {
                Err(e) => (w, Err(e)),
                Ok(c) => gives(
                    w.did(
                        if method == "glDrawArrays"@ {
                            EffectView::DrawArrays(a as u32, b, c)
                        } else {
                            EffectView::DrawElements(a as u32, b, c as u32)
                        },
                    ),
                    ValueView::Void,
                ),
            },
        },
    }
}

fn call_with_three(w: &mut World, method: &str, args: &Vec<Value>) -> (r: Result<Value, VmError>)
    ensures
        (final(w)@, error::outcome(r)) == with_three(old(w)@, method@, value::views(args@)),
{
    let a = int_arg(args, 1)?;
    let b = int_arg(args, 2)?;
    let c = int_arg(args, 3)?;
    if text::same(method, "glDrawArrays") {
        w.perform(Effect::DrawArrays(a as u32, b, c));
    } else {
        w.perform(Effect::DrawElements(a as u32, b, c as u32));
    }
    Ok(Value::Void)
}

/// A viewport has no negative size.
pub open spec fn viewport(w: WorldView, args: Seq<ValueView>) -> Effected {
    match convert::integer_arg(args, 1) {
        Err(e) => (w, Err(e)),
        Ok(x) => match convert::integer_arg(args, 2) {
            Err(e) => (w, Err(e)),
            Ok(y) => match convert::integer_arg(args, 3) {
                Err(e) => (w, Err(e)),
                Ok(width) => match convert::integer_arg(args, 4) {
                    Err(e) => (w, Err(e)),
                    Ok(height) => gives(
                        w.did(
                            EffectView::Viewport(
                                x,
                                y,
                                float::larger(width as int, 0) as u32,
                                float::larger(height as int, 0) as u32,
                            ),
                        ),
                        ValueView::Void,
                    ),
                },
            },
        },
    }
}

fn call_viewport(w: &mut World, args: &Vec<Value>) -> (r: Result<Value, VmError>)
    ensures
        (final(w)@, error::outcome(r)) == viewport(old(w)@, value::views(args@)),
{
    let x = int_arg(args, 1)?;
    let y = int_arg(args, 2)?;
    let width = int_arg(args, 3)?;
    let height = int_arg(args, 4)?;
    w.perform(
        Effect::Viewport(x, y, max_int(width, 0) as u32, max_int(height, 0) as u32),
    );
    Ok(Value::Void)
}

/// The interface; `pipeline` tells the fixed pipeline from what both have.
pub open spec fn gl(
    w: WorldView,
    pipeline: bool,
    method: Seq<char>,
    args: Seq<ValueView>,
) -> Option<Effected> {
    if method == "glClearColor"@ {
        match color_from(args, 1) {
            Err(e) => Some((w, Err(e))),
            Ok(c) => Some(gives(w.did(EffectView::ClearColor(c)), ValueView::Void)),
        }
    } else if method == "glClear"@ || method == "glEnable"@ || method == "glDisable"@ {
        Some(with_one(w, method, args))
    } else if method == "glBlendFunc"@ || method == "glBindTexture"@ {
        Some(with_two(w, method, args))
    } else if method == "glViewport"@ {
        Some(viewport(w, args))
    } else if method == "glDrawArrays"@ || method == "glDrawElements"@ {
        Some(with_three(w, method, args))
    } else if method == "glGetString"@ {
        Some(gives(w, ValueView::String("DonutHLE GLES 1.0 software renderer"@)))
    } else if quiet(method) || (pipeline && quiet_pipeline(method)) {
        Some(gives(w, ValueView::Void))
    } else {
        None
    }
}

pub fn call_gl(w: &mut World, pipeline: bool, method: &str, args: &Vec<Value>) -> (r: Option<
    Result<Value, VmError>,
>)
    ensures
        effected(final(w)@, r) == gl(old(w)@, pipeline, method@, value::views(args@)),
        r is None ==> final(w)@ == old(w)@,
{
    if text::same(method, "glClearColor") {
        match read_color(args, 1) {
            Err(e) => Some(Err(e)),
            Ok(c) => {
                w.perform(Effect::ClearColor(c));
                Some(Ok(Value::Void))
            },
        }
    } else if text::same(method, "glClear") || text::same(method, "glEnable") || text::same(
        method,
        "glDisable",
    ) {
        Some(call_with_one(w, method, args))
    } else if text::same(method, "glBlendFunc") || text::same(method, "glBindTexture") {
        Some(call_with_two(w, method, args))
    } else if text::same(method, "glViewport") {
        Some(call_viewport(w, args))
    } else if text::same(method, "glDrawArrays") || text::same(method, "glDrawElements") {
        Some(call_with_three(w, method, args))
    } else if text::same(method, "glGetString") {
        Some(Ok(Value::String("DonutHLE GLES 1.0 software renderer".to_owned())))
    } else if is_quiet(method) || (pipeline && is_quiet_pipeline(method)) {
        Some(Ok(Value::Void))
    } else {
        None
    }
}

} // verus!
