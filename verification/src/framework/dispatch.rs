//! Which method of the framework answers for which class.

use vstd::prelude::*;

use crate::convert;
use crate::convert::object_arg;
use crate::error;
use crate::error::{failure_text, VmError};
use crate::framework::activity;
use crate::framework::graphics;
use crate::framework::lists;
use crate::framework::math;
use crate::framework::objects;
use crate::framework::sorting;
use crate::framework::strings;
use crate::framework::system;
use crate::framework::system::{gives, make, makes};
use crate::host;
use crate::host::{AnswerView, Answers, Query, QueryView};
use crate::text;
use crate::value;
use crate::value::{value_at, ObjectId, Value, ValueView};
use crate::world::{Effected, World, WorldView};

verus! {

/// A method of an object that a framework method calls, and what the framework method gives
/// when that one has returned.
#[derive(Debug)]
pub struct Callback {
    pub object: ObjectId,
    pub method: String,
    pub args: Vec<Value>,
    pub value: Value,
}

pub struct CallbackView {
    pub object: ObjectId,
    pub method: Seq<char>,
    pub args: Seq<ValueView>,
    pub value: ValueView,
}

impl View for Callback {
    type V = CallbackView;

    open spec fn view(&self) -> CallbackView {
        CallbackView {
            object: self.object,
            method: self.method@,
            args: value::views(self.args@),
            value: self.value@,
        }
    }
}

pub open spec fn called(r: Option<Callback>) -> Option<CallbackView> {
    match r {
        Some(c) => Some(c@),
        None => None,
    }
}

/// Timers and handlers call at once what they are given.
pub open spec fn callback(
    class_name: Seq<char>,
    method: Seq<char>,
    args: Seq<ValueView>,
) -> Option<CallbackView> {
    if class_name == "Ljava/util/Timer;"@ && (method == "schedule"@ || method
        == "scheduleAtFixedRate"@) {
        match value::at(args, 1) {
            Some(ValueView::Object(task)) => Some(
                CallbackView {
                    object: task,
                    method: "run"@,
                    args: Seq::empty(),
                    value: ValueView::Void,
                },
            ),
            _ => None,
        }
    } else if class_name == "Landroid/os/Handler;"@ && method == "sendMessage"@ {
        match value::at(args, 0) {
            Some(ValueView::Object(handler)) => Some(
                CallbackView {
                    object: handler,
                    method: "handleMessage"@,
                    args: seq![value::or_null(value::at(args, 1))],
                    value: ValueView::Int(1),
                },
            ),
            _ => None,
        }
    } else {
        None
    }
}

pub fn find_callback(class_name: &str, method: &str, args: &Vec<Value>) -> (r: Option<Callback>)
    ensures
        called(r) == callback(class_name@, method@, value::views(args@)),
{
    if text::same(class_name, "Ljava/util/Timer;") && (text::same(method, "schedule") || text::same(
        method,
        "scheduleAtFixedRate",
    )) {
        match value_at(args, 1) {
            Some(Value::Object(task)) => {
                let none: Vec<Value> = Vec::new();
                assert(value::views(none@) =~= Seq::empty());
                Some(
                    Callback {
                        object: *task,
                        method: "run".to_owned(),
                        args: none,
                        value: Value::Void,
                    },
                )
            },
            _ => None,
        }
    } else if text::same(class_name, "Landroid/os/Handler;") && text::same(method, "sendMessage") {
        match value_at(args, 0) {
            Some(Value::Object(handler)) => {
                let message = match value_at(args, 1) {
                    Some(v) => v.clone(),
                    None => Value::Null,
                };
                let passed = vec![message];
                assert(value::views(passed@) =~= seq![message@]);
                Some(
                    Callback {
                        object: *handler,
                        method: "handleMessage".to_owned(),
                        args: passed,
                        value: Value::Int(1),
                    },
                )
            },
            _ => None,
        }
    } else {
        None
    }
}

pub open spec fn box_class(class_name: Seq<char>) -> bool {
    class_name == "Ljava/lang/Integer;"@ || class_name == "Ljava/lang/Long;"@ || class_name
        == "Ljava/lang/Float;"@ || class_name == "Ljava/lang/Double;"@ || class_name
        == "Ljava/lang/Boolean;"@
}

fn is_box_class(class_name: &str) -> (r: bool)
    ensures
        r == box_class(class_name@),
{
    text::same(class_name, "Ljava/lang/Integer;") || text::same(class_name, "Ljava/lang/Long;")
        || text::same(class_name, "Ljava/lang/Float;") || text::same(
        class_name,
        "Ljava/lang/Double;",
    ) || text::same(class_name, "Ljava/lang/Boolean;")
}

/// What has to be asked before a method can be performed.
pub open spec fn question(
    w: WorldView,
    class_name: Seq<char>,
    method: Seq<char>,
    args: Seq<ValueView>,
    answers: Seq<AnswerView>,
) -> Option<QueryView> {
    if class_name == "Ljava/util/Collections;"@ && method == "sort"@ {
        sorting::sort_question(w, args, answers)
    } else if class_name == "Ljava/lang/System;"@ && method == "nanoTime"@ {
        system::clock_question(answers)
    } else if class_name == "Landroid/content/SharedPreferences;"@ {
        activity::preference_question(w, method, args, answers)
    } else if class_name == "Landroid/graphics/Canvas;"@ {
        graphics::canvas_question(w, method, args, answers)
    } else if class_name == "Landroid/graphics/BitmapFactory;"@ {
        graphics::factory_question(w, method, args, answers)
    } else if class_name == "Landroid/content/SharedPreferences$Editor;"@ {
        activity::editor_question(method, args, answers)
    } else if class_name == "Ljava/lang/Math;"@ {
        math::question(method, args, answers)
    } else if class_name == "Landroid/view/MotionEvent;"@ || class_name
        == "Landroid/view/animation/AnimationUtils;"@ || class_name
        == "Landroid/view/animation/Animation;"@ {
        None
    } else if objects::view_class(class_name) {
        objects::view_question(w, method, args, answers)
    } else if box_class(class_name) {
        strings::box_question(w, method, args, answers)
    } else if class_name == "Ljava/lang/String;"@ {
        strings::string_question(w, method, args, answers)
    } else if class_name == "Ljava/lang/StringBuilder;"@ {
        strings::builder_question(method, args, answers)
    } else if class_name == "Ljava/text/DecimalFormat;"@ {
        objects::format_question(method, args, answers)
    } else {
        None
    }
}

pub fn ask(w: &World, class_name: &str, method: &str, args: &Vec<Value>, answers: &Answers) -> (r:
    Option<Query>)
    ensures
        host::asked(r) == question(
            w@,
            class_name@,
            method@,
            value::views(args@),
            host::answers_view(answers@),
        ),
{
    if text::same(class_name, "Ljava/util/Collections;") && text::same(method, "sort") {
        sorting::ask_sort(w, args, answers)
    } else if text::same(class_name, "Ljava/lang/System;") && text::same(method, "nanoTime") {
        system::ask_clock(answers)
    } else if text::same(class_name, "Landroid/content/SharedPreferences;") {
        activity::ask_preferences(w, method, args, answers)
    } else if text::same(class_name, "Landroid/graphics/Canvas;") {
        graphics::ask_canvas(w, method, args, answers)
    } else if text::same(class_name, "Landroid/graphics/BitmapFactory;") {
        graphics::ask_factory(w, method, args, answers)
    } else if text::same(class_name, "Landroid/content/SharedPreferences$Editor;") {
        activity::ask_editor(method, args, answers)
    } else if text::same(class_name, "Ljava/lang/Math;") {
        math::ask(method, args, answers)
    } else if text::same(class_name, "Landroid/view/MotionEvent;") || text::same(
        class_name,
        "Landroid/view/animation/AnimationUtils;",
    ) || text::same(class_name, "Landroid/view/animation/Animation;") {
        None
    } else if objects::is_view_class(class_name) {
        objects::ask_view(w, method, args, answers)
    } else if is_box_class(class_name) {
        strings::ask_box(w, method, args, answers)
    } else if text::same(class_name, "Ljava/lang/String;") {
        strings::ask_string(w, method, args, answers)
    } else if text::same(class_name, "Ljava/lang/StringBuilder;") {
        strings::ask_builder(method, args, answers)
    } else if text::same(class_name, "Ljava/text/DecimalFormat;") {
        objects::ask_format(method, args, answers)
    } else {
        None
    }
}

/// The methods of the system and of activities.
pub open spec fn performed_by_system(
    w: WorldView,
    class_name: Seq<char>,
    method: Seq<char>,
    args: Seq<ValueView>,
    answers: Seq<AnswerView>,
) -> Option<Effected> {
    if class_name == "Landroid/util/Log;"@ {
        Some(system::log(w, method, args))
    } else if class_name == "Ljava/util/Collections;"@ && method == "sort"@ {
        Some(sorting::sort(w, args, answers))
    } else if class_name == "Ljava/io/PrintStream;"@ {
        Some(gives(w, ValueView::Void))
    } else if class_name == "Ljava/lang/Thread;"@ {
        Some(system::thread(w, method, args))
    } else if class_name == "Landroid/os/Looper;"@ {
        Some(system::looper(w, method))
    } else if class_name == "Ljava/lang/System;"@ && system::system_method(method) {
        Some(system::system(w, method, args, answers))
    } else if class_name == "Ljava/util/Locale;"@ {
        Some(system::locale(w, method))
    } else if class_name == "Landroid/content/Intent;"@ {
        Some(activity::intent(w, method, args))
    } else if class_name == "Landroid/os/Environment;"@ && method
        == "getExternalStorageDirectory"@ {
        Some(makes(w, "Ljava/io/File;"@))
    } else if class_name == "Landroid/content/Context;"@ || text::starts(
        class_name,
        "Landroid/app/"@,
    ) {
        Some(activity::context(w, method, args))
    } else if class_name == "Landroid/content/SharedPreferences;"@ {
        Some(activity::preferences(w, method, args, answers))
    } else if class_name == "Landroid/content/res/Resources;"@ {
        Some(activity::resources(w, method, args))
    } else if class_name == "Landroid/content/SharedPreferences$Editor;"@ {
        Some(activity::editor(w, method, args, answers))
    } else {
        None
    }
}

pub open spec fn effected(after: WorldView, r: Option<Result<Value, VmError>>) -> Option<Effected> {
    match r {
        Some(r) => Some((after, error::outcome(r))),
        None => None,
    }
}

fn perform_system(
    w: &mut World,
    class_name: &str,
    method: &str,
    args: &Vec<Value>,
    answers: &Answers,
) -> (r: Option<Result<Value, VmError>>)
    ensures
        effected(final(w)@, r) == performed_by_system(
            old(w)@,
            class_name@,
            method@,
            value::views(args@),
            host::answers_view(answers@),
        ),
        r is None ==> final(w)@ == old(w)@,
{
    if text::same(class_name, "Landroid/util/Log;") {
        Some(system::write_log(w, method, args))
    } else if text::same(class_name, "Ljava/util/Collections;") && text::same(method, "sort") {
        Some(sorting::sort_list(w, args, answers))
    } else if text::same(class_name, "Ljava/io/PrintStream;") {
        Some(Ok(Value::Void))
    } else if text::same(class_name, "Ljava/lang/Thread;") {
        Some(system::call_thread(w, method, args))
    } else if text::same(class_name, "Landroid/os/Looper;") {
        Some(system::call_looper(w, method))
    } else if text::same(class_name, "Ljava/lang/System;") && system::is_system_method(method) {
        Some(system::call_system(w, method, args, answers))
    } else if text::same(class_name, "Ljava/util/Locale;") {
        Some(system::call_locale(w, method))
    } else if text::same(class_name, "Landroid/content/Intent;") {
        Some(activity::call_intent(w, method, args))
    } else if text::same(class_name, "Landroid/os/Environment;") && text::same(
        method,
        "getExternalStorageDirectory",
    ) {
        Some(make(w, "Ljava/io/File;"))
    } else if text::same(class_name, "Landroid/content/Context;") || text::starts_with(
        class_name,
        "Landroid/app/",
    ) {
        Some(activity::call_context(w, method, args))
    } else if text::same(class_name, "Landroid/content/SharedPreferences;") {
        Some(activity::call_preferences(w, method, args, answers))
    } else if text::same(class_name, "Landroid/content/res/Resources;") {
        Some(activity::call_resources(w, method, args))
    } else if text::same(class_name, "Landroid/content/SharedPreferences$Editor;") {
        Some(activity::call_editor(w, method, args, answers))
    } else {
        None
    }
}

/// The methods of graphics and mathematics, the constructors, and the methods of views, sound
/// and files.
pub open spec fn performed_by_graphics(
    w: WorldView,
    class_name: Seq<char>,
    method: Seq<char>,
    args: Seq<ValueView>,
    answers: Seq<AnswerView>,
) -> Option<Effected> {
    if class_name == "Landroid/graphics/Canvas;"@ {
        Some(graphics::canvas(w, method, args, answers))
    } else if class_name == "Landroid/graphics/Path;"@ || class_name
        == "Landroid/graphics/Matrix;"@ || class_name == "Landroid/view/animation/Animation;"@ {
        Some(gives(w, ValueView::Void))
    } else if class_name == "Landroid/graphics/Paint;"@ {
        Some(graphics::paint(w, method, args))
    } else if class_name == "Landroid/graphics/Color;"@ {
        Some((w, graphics::mix_color(method, args)))
    } else if class_name == "Landroid/graphics/BitmapFactory;"@ {
        Some(graphics::factory(w, method, args, answers))
    } else if class_name == "Landroid/graphics/Bitmap;"@ {
        Some(graphics::bitmap(w, method, args))
    } else if class_name == "Landroid/view/animation/AnimationUtils;"@ {
        if method == "loadAnimation"@ {
            Some(makes(w, "Landroid/view/animation/Animation;"@))
        } else {
            Some(gives(w, ValueView::Null))
        }
    } else if class_name == "Ljava/lang/Math;"@ {
        Some((w, math::call(method, args, answers)))
    } else if method == "<init>"@ && objects::constructs(class_name) {
        Some(gives(objects::construct(w, class_name, args), ValueView::Void))
    } else if class_name == "Ljava/lang/Object;"@ && method == "getClass"@ {
        Some(objects::get_class(w, args))
    } else if class_name == "Landroid/view/MotionEvent;"@ {
        Some((w, objects::motion(w, method, args)))
    } else if objects::view_class(class_name) {
        Some(objects::view_call(w, method, args, answers))
    } else if class_name == "Landroid/hardware/SensorManager;"@ {
        Some(objects::sensors(w, method))
    } else if class_name == "Landroid/media/SoundPool;"@ {
        Some(gives(w, objects::sound(method)))
    } else if class_name == "Landroid/media/MediaPlayer;"@ {
        Some(objects::media(w, method, args))
    } else if class_name == "Ljava/io/File;"@ {
        Some(objects::file(w, method, args))
    } else {
        None
    }
}

fn perform_graphics(
    w: &mut World,
    class_name: &str,
    method: &str,
    args: &Vec<Value>,
    answers: &Answers,
) -> (r: Option<Result<Value, VmError>>)
    ensures
        effected(final(w)@, r) == performed_by_graphics(
            old(w)@,
            class_name@,
            method@,
            value::views(args@),
            host::answers_view(answers@),
        ),
        r is None ==> final(w)@ == old(w)@,
{
    if text::same(class_name, "Landroid/graphics/Canvas;") {
        Some(graphics::call_canvas(w, method, args, answers))
    } else if text::same(class_name, "Landroid/graphics/Path;") || text::same(
        class_name,
        "Landroid/graphics/Matrix;",
    ) || text::same(class_name, "Landroid/view/animation/Animation;") {
        Some(Ok(Value::Void))
    } else if text::same(class_name, "Landroid/graphics/Paint;") {
        Some(graphics::call_paint(w, method, args))
    } else if text::same(class_name, "Landroid/graphics/Color;") {
        Some(graphics::call_color(method, args))
    } else if text::same(class_name, "Landroid/graphics/BitmapFactory;") {
        Some(graphics::call_factory(w, method, args, answers))
    } else if text::same(class_name, "Landroid/graphics/Bitmap;") {
        Some(graphics::call_bitmap(w, method, args))
    } else if text::same(class_name, "Landroid/view/animation/AnimationUtils;") {
        if text::same(method, "loadAnimation") {
            Some(make(w, "Landroid/view/animation/Animation;"))
        } else {
            Some(Ok(Value::Null))
        }
    } else if text::same(class_name, "Ljava/lang/Math;") {
        Some(math::call_math(method, args, answers))
    } else if text::same(method, "<init>") && objects::is_constructed(class_name) {
        objects::call_constructor(w, class_name, args);
        Some(Ok(Value::Void))
    } else if text::same(class_name, "Ljava/lang/Object;") && text::same(method, "getClass") {
        Some(objects::call_get_class(w, args))
    } else if text::same(class_name, "Landroid/view/MotionEvent;") {
        Some(objects::call_motion(w, method, args))
    } else if objects::is_view_class(class_name) {
        Some(objects::call_view(w, method, args, answers))
    } else if text::same(class_name, "Landroid/hardware/SensorManager;") {
        Some(objects::call_sensors(w, method))
    } else if text::same(class_name, "Landroid/media/SoundPool;") {
        Some(Ok(objects::call_sound(method)))
    } else if text::same(class_name, "Landroid/media/MediaPlayer;") {
        Some(objects::call_media(w, method, args))
    } else if text::same(class_name, "Ljava/io/File;") {
        Some(objects::call_file(w, method, args))
    } else {
        None
    }
}

/// The methods of strings, lists and the rest.
pub open spec fn performed_by_lists(
    w: WorldView,
    class_name: Seq<char>,
    method: Seq<char>,
    args: Seq<ValueView>,
    answers: Seq<AnswerView>,
) -> Option<Effected> {
    if class_name == "Ljava/lang/reflect/Array;"@ && method == "newInstance"@ {
        Some(lists::new_array(w, args))
    } else if box_class(class_name) && strings::box_method(method) {
        Some(strings::boxes(w, method, args, answers))
    } else if class_name == "Ljava/lang/String;"@ && strings::string_method(method) {
        Some(strings::string(w, method, args, answers))
    } else if class_name == "Ljava/lang/StringBuilder;"@ {
        match convert::reference_arg(args, 0) {
            Err(e) => Some((w, Err(e))),
            Ok(receiver) => if strings::builder_method(method) {
                Some(strings::builder(w, receiver, method, args, answers))
            } else {
                None
            },
        }
    } else if lists::list_class(class_name) {
        Some(lists::list(w, method, args))
    } else if class_name == "Ljava/lang/Class;"@ && objects::class_method(method) {
        Some(objects::class(w, method, args))
    } else if class_name == "Ljava/text/DecimalFormat;"@ {
        Some(objects::decimal_format(w, method, args, answers))
    } else if class_name == "Ljava/util/Random;"@ {
        Some(objects::random(w, method, args))
    } else if class_name == "Landroid/graphics/Typeface;"@ && method == "createFromAsset"@ {
        Some(makes(w, "Landroid/graphics/Typeface;"@))
    } else if class_name == "Ljava/util/Timer;"@ || class_name == "Landroid/os/Message;"@ {
        Some(gives(w, ValueView::Void))
    } else if class_name == "Ljava/util/TimerTask;"@ {
        if method == "cancel"@ || method == "scheduledExecutionTime"@ {
            Some(gives(w, ValueView::Int(0)))
        } else {
            Some(gives(w, ValueView::Void))
        }
    } else if class_name == "Landroid/os/Handler;"@ {
        Some(handler(w, method, args))
    } else if class_name == "Landroid/os/Bundle;"@ {
        Some(activity::bundle(w, method, args))
    } else {
        None
    }
}

/// `android.os.Handler`. A message without a handler is an error.
pub open spec fn handler(w: WorldView, method: Seq<char>, args: Seq<ValueView>) -> Effected {
    if method == "sendMessage"@ {
        match convert::reference_arg(args, 0) {
            Err(e) => (w, Err(e)),
            Ok(_) => gives(w, ValueView::Int(1)),
        }
    } else if method == "post"@ || method == "postDelayed"@ || method == "removeCallbacks"@ {
        gives(w, ValueView::Int(1))
    } else {
        gives(w, ValueView::Void)
    }
}

fn call_handler(method: &str, args: &Vec<Value>, w: &World) -> (r: Result<Value, VmError>)
    ensures
        (w@, error::outcome(r)) == handler(w@, method@, value::views(args@)),
{
    if text::same(method, "sendMessage") {
        let _ = object_arg(args, 0)?;
        Ok(Value::Int(1))
    } else if text::same(method, "post") || text::same(method, "postDelayed") || text::same(
        method,
        "removeCallbacks",
    ) {
        Ok(Value::Int(1))
    } else {
        Ok(Value::Void)
    }
}

fn perform_lists(
    w: &mut World,
    class_name: &str,
    method: &str,
    args: &Vec<Value>,
    answers: &Answers,
) -> (r: Option<Result<Value, VmError>>)
    ensures
        effected(final(w)@, r) == performed_by_lists(
            old(w)@,
            class_name@,
            method@,
            value::views(args@),
            host::answers_view(answers@),
        ),
        r is None ==> final(w)@ == old(w)@,
{
    if text::same(class_name, "Ljava/lang/reflect/Array;") && text::same(method, "newInstance") {
        Some(lists::call_new_array(w, args))
    } else if is_box_class(class_name) && strings::is_box_method(method) {
        Some(strings::call_box(w, method, args, answers))
    } else if text::same(class_name, "Ljava/lang/String;") && strings::is_string_method(method) {
        Some(strings::call_string(w, method, args, answers))
    } else if text::same(class_name, "Ljava/lang/StringBuilder;") {
        match object_arg(args, 0) {
            Err(e) => Some(Err(e)),
            Ok(receiver) => if strings::is_builder_method(method) {
                Some(strings::call_builder(w, receiver, method, args, answers))
            } else {
                None
            },
        }
    } else if lists::is_list_class(class_name) {
        Some(lists::call_list(w, method, args))
    } else if text::same(class_name, "Ljava/lang/Class;") && (text::same(method, "getMethod")
        || text::same(method, "forName")) {
        Some(objects::call_class(w, method, args))
    } else if text::same(class_name, "Ljava/text/DecimalFormat;") {
        Some(objects::call_decimal_format(w, method, args, answers))
    } else if text::same(class_name, "Ljava/util/Random;") {
        Some(objects::call_random(w, method, args))
    } else if text::same(class_name, "Landroid/graphics/Typeface;") && text::same(
        method,
        "createFromAsset",
    ) {
        Some(make(w, "Landroid/graphics/Typeface;"))
    } else if text::same(class_name, "Ljava/util/Timer;") || text::same(
        class_name,
        "Landroid/os/Message;",
    ) {
        Some(Ok(Value::Void))
    } else if text::same(class_name, "Ljava/util/TimerTask;") {
        if text::same(method, "cancel") || text::same(method, "scheduledExecutionTime") {
            Some(Ok(Value::Int(0)))
        } else {
            Some(Ok(Value::Void))
        }
    } else if text::same(class_name, "Landroid/os/Handler;") {
        Some(call_handler(method, args, w))
    } else if text::same(class_name, "Landroid/os/Bundle;") {
        Some(activity::call_bundle(w, method, args))
    } else {
        None
    }
}

/// What a method of a framework class does.
pub open spec fn performed(
    w: WorldView,
    class_name: Seq<char>,
    method: Seq<char>,
    args: Seq<ValueView>,
    answers: Seq<AnswerView>,
) -> Effected {
    match performed_by_system(w, class_name, method, args, answers) {
        Some(done) => done,
        None => match performed_by_graphics(w, class_name, method, args, answers) {
            Some(done) => done,
            None => match performed_by_lists(w, class_name, method, args, answers) {
                Some(done) => done,
                None => (
                    w,
                    Err(
                        error::fault(
                            0,
                            0,
                            "framework method "@ + class_name + "->"@ + method
                                + " is not implemented"@,
                        ),
                    ),
                ),
            },
        },
    }
}

pub fn dispatch_framework(
    w: &mut World,
    class_name: &str,
    method: &str,
    args: &Vec<Value>,
    answers: &Answers,
) -> (r: Result<Value, VmError>)
    ensures
        (final(w)@, error::outcome(r)) == performed(
            old(w)@,
            class_name@,
            method@,
            value::views(args@),
            host::answers_view(answers@),
        ),
{
    match perform_system(w, class_name, method, args, answers) {
        Some(r) => {
            return r;
        },
        None => {},
    }
    match perform_graphics(w, class_name, method, args, answers) {
        Some(r) => {
            return r;
        },
        None => {},
    }
    match perform_lists(w, class_name, method, args, answers) {
        Some(r) => {
            return r;
        },
        None => {},
    }
    let name = text::join3("framework method ", class_name, "->");
    Err(failure_text(0, 0, text::join3(name.as_str(), method, " is not implemented")))
}

} // verus!
