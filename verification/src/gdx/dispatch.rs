//! Which method of the game library answers for which class.

use vstd::prelude::*;

use crate::convert;
use crate::convert::int_arg;
use crate::error;
use crate::error::{failure_text, VmError};
use crate::framework::dispatch::effected;
use crate::framework::system::gives;
use crate::gdx::application;
use crate::gdx::gl;
use crate::gdx::maths;
use crate::gdx::sprites;
use crate::host;
use crate::host::{AnswerView, Answers, Query, QueryView};
use crate::text;
use crate::value;
use crate::value::{Value, ValueView};
use crate::world::{Effected, World, WorldView};

verus! {

/// What has to be asked before a method can be performed.
pub open spec fn question(
    w: WorldView,
    class_name: Seq<char>,
    method: Seq<char>,
    args: Seq<ValueView>,
    answers: Seq<AnswerView>,
) -> Option<QueryView> {
    if method == "<clinit>"@ {
        None
    } else if class_name == "Lcom/badlogic/gdx/backends/android/AndroidApplication;"@ {
        application::android_question(method, args, answers)
    } else if class_name == "Lcom/badlogic/gdx/backends/android/AndroidGraphics;"@ {
        application::graphics_question(w, method, answers)
    } else if class_name == "Lcom/badlogic/gdx/files/FileHandle;"@ {
        application::handle_question(w, method, args, answers)
    } else if class_name == "Lcom/badlogic/gdx/math/MathUtils;"@ {
        maths::question(method, args, answers)
    } else {
        sprites::question(w, class_name, method, args, answers)
    }
}

pub fn ask(w: &World, class_name: &str, method: &str, args: &Vec<Value>, answers: &Answers) -> (r:
    Option<Query>)
    ensures
        host::asked(r) == question(
            w@,
            class_name@,
            method@,
            value::views(args@),
            host::answers_view(answers@),
        ),
{
    if text::same(method, "<clinit>") {
        None
    } else if text::same(class_name, "Lcom/badlogic/gdx/backends/android/AndroidApplication;") {
        application::ask_android(method, args, answers)
    } else if text::same(class_name, "Lcom/badlogic/gdx/backends/android/AndroidGraphics;") {
        application::ask_graphics(w, method, answers)
    } else if text::same(class_name, "Lcom/badlogic/gdx/files/FileHandle;") {
        application::ask_handle(w, method, args, answers)
    } else if text::same(class_name, "Lcom/badlogic/gdx/math/MathUtils;") {
        maths::ask(method, args, answers)
    } else {
        sprites::ask(w, class_name, method, args, answers)
    }
}

pub open spec fn simply(w: WorldView, v: Option<ValueView>) -> Option<Effected> {
    match v {
        Some(v) => Some(gives(w, v)),
        None => None,
    }
}

fn simple(v: Option<Value>) -> (r: Option<Result<Value, VmError>>)
    ensures
        forall|w: WorldView| #[trigger] effected(w, r) == simply(w, value::owned(v)),
{
    match v {
        Some(v) => Some(Ok(v)),
        None => None,
    }
}

pub open spec fn outcome_in(w: WorldView, r: Option<error::Outcome>) -> Option<Effected> {
    match r {
        Some(r) => Some((w, r)),
        None => None,
    }
}

/// `OrthographicCamera`.
pub open spec fn camera(method: Seq<char>) -> Option<ValueView> {
    if method == "update"@ || method == "apply"@ || method == "translate"@ {
        Some(ValueView::Void)
    } else {
        None
    }
}

fn call_camera(method: &str) -> (r: Option<Value>)
    ensures
        value::owned(r) == camera(method@),
{
    if text::same(method, "update") || text::same(method, "apply") || text::same(
        method,
        "translate",
    ) {
        Some(Value::Void)
    } else {
        None
    }
}

/// `Color.toFloatBits` gives its number back.
pub open spec fn color(w: WorldView, method: Seq<char>, args: Seq<ValueView>) -> Option<Effected> {
    if method == "toFloatBits"@ {
        match convert::integer_arg(args, 0) {
            Err(e) => Some((w, Err(e))),
            Ok(n) => Some(gives(w, ValueView::Int(n))),
        }
    } else {
        None
    }
}

fn call_color(method: &str, args: &Vec<Value>) -> (r: Option<Result<Value, VmError>>)
    ensures
        forall|w: WorldView| #[trigger]
            effected(w, r) == color(w, method@, value::views(args@)),
{
    if text::same(method, "toFloatBits") {
        match int_arg(args, 0) {
            Err(e) => Some(Err(e)),
            Ok(n) => Some(Ok(Value::Int(n))),
        }
    } else {
        None
    }
}

/// The methods of the application.
pub open spec fn performed_by_application(
    w: WorldView,
    class_name: Seq<char>,
    method: Seq<char>,
    args: Seq<ValueView>,
    answers: Seq<AnswerView>,
) -> Option<Effected> {
    if method == "<clinit>"@ {
        Some(gives(w, ValueView::Void))
    } else if class_name == "Lcom/badlogic/gdx/backends/android/AndroidApplication;"@ {
        application::android(w, method, args, answers)
    } else if class_name == "Lcom/badlogic/gdx/backends/android/AndroidGraphics;"@ {
        application::android_graphics(w, method, answers)
    } else if class_name == "Lcom/badlogic/gdx/Application;"@ {
        application::application(w, method)
    } else if class_name == "Lcom/badlogic/gdx/ApplicationListener;"@ {
        if application::listens(method) {
            Some(gives(w, ValueView::Void))
        } else {
            None
        }
    } else if class_name == "Lcom/badlogic/gdx/Graphics;"@ {
        application::graphics(w, method)
    } else if class_name == "Lcom/badlogic/gdx/Input;"@ {
        simply(w, application::input(method))
    } else if class_name == "Lcom/badlogic/gdx/Files;"@ {
        application::files(w, method, args)
    } else if class_name == "Lcom/badlogic/gdx/files/FileHandle;"@ {
        application::handle(w, method, args, answers)
    } else if class_name == "Lcom/badlogic/gdx/audio/Sound;"@ {
        simply(w, application::sound(method))
    } else if class_name == "Lcom/badlogic/gdx/audio/Music;"@ {
        simply(w, application::music(method))
    } else if class_name == "Lcom/badlogic/gdx/Preferences;"@ {
        simply(w, application::preferences(method))
    } else {
        None
    }
}

fn perform_application(
    w: &mut World,
    class_name: &str,
    method: &str,
    args: &Vec<Value>,
    answers: &Answers,
) -> (r: Option<Result<Value, VmError>>)
    ensures
        effected(final(w)@, r) == performed_by_application(
            old(w)@,
            class_name@,
            method@,
            value::views(args@),
            host::answers_view(answers@),
        ),
        r is None ==> final(w)@ == old(w)@,
{
    if text::same(method, "<clinit>") {
        Some(Ok(Value::Void))
    } else if text::same(class_name, "Lcom/badlogic/gdx/backends/android/AndroidApplication;") {
        application::call_android(w, method, args, answers)
    } else if text::same(class_name, "Lcom/badlogic/gdx/backends/android/AndroidGraphics;") {
        application::call_android_graphics(w, method, answers)
    } else if text::same(class_name, "Lcom/badlogic/gdx/Application;") {
        application::call_application(w, method)
    } else if text::same(class_name, "Lcom/badlogic/gdx/ApplicationListener;") {
        if application::is_listening(method) {
            Some(Ok(Value::Void))
        } else {
            None
        }
    } else if text::same(class_name, "Lcom/badlogic/gdx/Graphics;") {
        application::call_graphics(w, method)
    } else if text::same(class_name, "Lcom/badlogic/gdx/Input;") {
        simple(application::call_input(method))
    } else if text::same(class_name, "Lcom/badlogic/gdx/Files;") {
        application::call_files(w, method, args)
    } else if text::same(class_name, "Lcom/badlogic/gdx/files/FileHandle;") {
        application::call_handle(w, method, args, answers)
    } else if text::same(class_name, "Lcom/badlogic/gdx/audio/Sound;") {
        simple(application::call_sound(method))
    } else if text::same(class_name, "Lcom/badlogic/gdx/audio/Music;") {
        simple(application::call_music(method))
    } else if text::same(class_name, "Lcom/badlogic/gdx/Preferences;") {
        simple(application::call_preferences(method))
    } else {
        None
    }
}

/// The methods of drawing and mathematics.
pub open spec fn performed_by_graphics(
    w: WorldView,
    steps: usize,
    class_name: Seq<char>,
    method: Seq<char>,
    args: Seq<ValueView>,
    answers: Seq<AnswerView>,
) -> Option<Effected> {
    if class_name == "Lcom/badlogic/gdx/graphics/GL10;"@ {
        gl::gl(w, true, method, args)
    } else if class_name == "Lcom/badlogic/gdx/graphics/GLCommon;"@ {
        gl::gl(w, false, method, args)
    } else if class_name == "Lcom/badlogic/gdx/math/MathUtils;"@ {
        outcome_in(w, maths::math_utils(steps, method, args, answers))
    } else if class_name == "Lcom/badlogic/gdx/math/Vector3;"@ {
        if method == "set"@ {
            Some((w, maths::set_vector(args)))
        } else {
            None
        }
    } else if class_name == "Lcom/badlogic/gdx/graphics/Color;"@ {
        color(w, method, args)
    } else if class_name == "Lcom/badlogic/gdx/graphics/OrthographicCamera;"@ {
        simply(w, camera(method))
    } else {
        sprites::performed(w, class_name, method, args, answers)
    }
}

fn perform_graphics(
    w: &mut World,
    steps: usize,
    class_name: &str,
    method: &str,
    args: &Vec<Value>,
    answers: &Answers,
) -> (r: Option<Result<Value, VmError>>)
    ensures
        effected(final(w)@, r) == performed_by_graphics(
            old(w)@,
            steps,
            class_name@,
            method@,
            value::views(args@),
            host::answers_view(answers@),
        ),
        r is None ==> final(w)@ == old(w)@,
{
    if text::same(class_name, "Lcom/badlogic/gdx/graphics/GL10;") {
        gl::call_gl(w, true, method, args)
    } else if text::same(class_name, "Lcom/badlogic/gdx/graphics/GLCommon;") {
        gl::call_gl(w, false, method, args)
    } else if text::same(class_name, "Lcom/badlogic/gdx/math/MathUtils;") {
        maths::call_math_utils(steps, method, args, answers)
    } else if text::same(class_name, "Lcom/badlogic/gdx/math/Vector3;") {
        if text::same(method, "set") {
            Some(maths::call_set_vector(args))
        } else {
            None
        }
    } else if text::same(class_name, "Lcom/badlogic/gdx/graphics/Color;") {
        call_color(method, args)
    } else if text::same(class_name, "Lcom/badlogic/gdx/graphics/OrthographicCamera;") {
        simple(call_camera(method))
    } else {
        sprites::perform(w, class_name, method, args, answers)
    }
}

/// What a method of the game library does, after so many instructions.
pub open spec fn performed(
    w: WorldView,
    steps: usize,
    class_name: Seq<char>,
    method: Seq<char>,
    args: Seq<ValueView>,
    answers: Seq<AnswerView>,
) -> Effected {
    match performed_by_application(w, class_name, method, args, answers) {
        Some(done) => done,
        None => match performed_by_graphics(w, steps, class_name, method, args, answers) {
            Some(done) => done,
            None => (
                w,
                Err(
                    error::fault(
                        0,
                        0,
                        "GDX method "@ + class_name + "->"@ + method + " is not implemented"@,
                    ),
                ),
            ),
        },
    }
}

pub fn dispatch_gdx(
    w: &mut World,
    steps: usize,
    class_name: &str,
    method: &str,
    args: &Vec<Value>,
    answers: &Answers,
) -> (r: Result<Value, VmError>)
    ensures
        (final(w)@, error::outcome(r)) == performed(
            old(w)@,
            steps,
            class_name@,
            method@,
            value::views(args@),
            host::answers_view(answers@),
        ),
{
    match perform_application(w, class_name, method, args, answers) {
        Some(r) => {
            return r;
        },
        None => {},
    }
    match perform_graphics(w, steps, class_name, method, args, answers) {
        Some(r) => {
            return r;
        },
        None => {},
    }
    let name = text::join3("GDX method ", class_name, "->");
    Err(failure_text(0, 0, text::join3(name.as_str(), method, " is not implemented")))
}

} // verus!
