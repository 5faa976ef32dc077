//! The application: its parts, its files and its preferences.

use vstd::prelude::*;
use vstd::utf8::{decode_utf8, valid_utf8};

use crate::arith;
use crate::convert;
use crate::convert::{object_arg, object_id};
use crate::error;
use crate::error::{failure_text, VmError};
use crate::framework::activity;
use crate::framework::system::gives;
use crate::host;
use crate::host::{Answer, AnswerView, Answers, FrameworkResultView, Query, QueryView};
use crate::text;
use crate::value;
use crate::value::{push_value, value_at, HeapObject, ObjectId, ObjectView, Value, ValueView};
use crate::world;
use crate::world::{push_text, Effected, FrameworkView, World, WorldView};

verus! {

/// An object as a result: object 0 is no object.
pub open spec fn object_result(id: ObjectId) -> ValueView {
    host::lifted(FrameworkResultView::Object(id))
}

pub fn object_value(id: ObjectId) -> (r: Value)
    ensures
        r@ == object_result(id),
{
    if id == 0 {
        Value::Null
    } else {
        Value::Object(id)
    }
}

/// A method that gives a new instance of a class.
pub open spec fn makes(w: WorldView, class_name: Seq<char>) -> Effected {
    gives(w.with_object(world::instance_of(class_name)), object_result(w.fresh()))
}

pub fn make(w: &mut World, class_name: &str) -> (r: Result<Value, VmError>)
    ensures
        (final(w)@, error::outcome(r)) == makes(old(w)@, class_name@),
{
    let id = w.alloc_instance(class_name);
    Ok(object_value(id))
}

// The parts of an application, made once.

pub open spec fn get_input(w: WorldView) -> Effected {
    match w.framework.gdx_input {
        Some(id) => gives(w, object_result(id)),
        None => gives(
            WorldView {
                framework: FrameworkView { gdx_input: Some(w.fresh()), ..w.framework },
                ..w.with_object(world::instance_of("Lcom/badlogic/gdx/Input;"@))
            },
            object_result(w.fresh()),
        ),
    }
}

pub open spec fn get_audio(w: WorldView) -> Effected {
    match w.framework.gdx_audio {
        Some(id) => gives(w, object_result(id)),
        None => gives(
            WorldView {
                framework: FrameworkView { gdx_audio: Some(w.fresh()), ..w.framework },
                ..w.with_object(world::instance_of("Lcom/badlogic/gdx/Audio;"@))
            },
            object_result(w.fresh()),
        ),
    }
}

pub open spec fn get_files(w: WorldView) -> Effected {
    match w.framework.gdx_files {
        Some(id) => gives(w, object_result(id)),
        None => gives(
            WorldView {
                framework: FrameworkView { gdx_files: Some(w.fresh()), ..w.framework },
                ..w.with_object(world::instance_of("Lcom/badlogic/gdx/Files;"@))
            },
            object_result(w.fresh()),
        ),
    }
}

pub open spec fn get_graphics(w: WorldView) -> Effected {
    match w.framework.gdx_graphics {
        Some(id) => gives(w, object_result(id)),
        None => gives(
            WorldView {
                framework: FrameworkView { gdx_graphics: Some(w.fresh()), ..w.framework },
                ..w.with_object(world::instance_of("Lcom/badlogic/gdx/Graphics;"@))
            },
            object_result(w.fresh()),
        ),
    }
}

fn find_input(w: &mut World) -> (r: Result<Value, VmError>)
    ensures
        (final(w)@, error::outcome(r)) == get_input(old(w)@),
{
    match w.framework.gdx_input {
        Some(id) => Ok(object_value(id)),
        None => {
            let id = w.alloc_instance("Lcom/badlogic/gdx/Input;");
            w.framework.gdx_input = Some(id);
            Ok(object_value(id))
        },
    }
}

fn find_audio(w: &mut World) -> (r: Result<Value, VmError>)
    ensures
        (final(w)@, error::outcome(r)) == get_audio(old(w)@),
{
    match w.framework.gdx_audio {
        Some(id) => Ok(object_value(id)),
        None => {
            let id = w.alloc_instance("Lcom/badlogic/gdx/Audio;");
            w.framework.gdx_audio = Some(id);
            Ok(object_value(id))
        },
    }
}

fn find_files(w: &mut World) -> (r: Result<Value, VmError>)
    ensures
        (final(w)@, error::outcome(r)) == get_files(old(w)@),
{
    match w.framework.gdx_files {
        Some(id) => Ok(object_value(id)),
        None => {
            let id = w.alloc_instance("Lcom/badlogic/gdx/Files;");
            w.framework.gdx_files = Some(id);
            Ok(object_value(id))
        },
    }
}

fn find_graphics(w: &mut World) -> (r: Result<Value, VmError>)
    ensures
        (final(w)@, error::outcome(r)) == get_graphics(old(w)@),
{
    match w.framework.gdx_graphics {
        Some(id) => Ok(object_value(id)),
        None => {
            let id = w.alloc_instance("Lcom/badlogic/gdx/Graphics;");
            w.framework.gdx_graphics = Some(id);
            Ok(object_value(id))
        },
    }
}

// `AndroidApplication`.

/// The view that the surroundings make for an application is asked for, and so is how they
/// show a content view.
pub open spec fn android_question(
    method: Seq<char>,
    args: Seq<ValueView>,
    answers: Seq<AnswerView>,
) -> Option<QueryView> {
    if answers.len() > 0 {
        None
    } else if method == "initializeForView"@ {
        Some(QueryView::AllocView("Landroid/opengl/GLSurfaceView;"@))
    } else if method == "setContentView"@ {
        match (convert::reference_arg(args, 0), convert::reference_arg(args, 1)) {
            (Ok(activity), Ok(view)) => Some(QueryView::SetContentView { activity, view }),
            _ => None,
        }
    } else {
        None
    }
}

pub fn ask_android(method: &str, args: &Vec<Value>, answers: &Answers) -> (r: Option<Query>)
    ensures
        host::asked(r) == android_question(
            method@,
            value::views(args@),
            host::answers_view(answers@),
        ),
{
    if answers.len() > 0 {
        None
    } else if text::same(method, "initializeForView") {
        Some(Query::AllocView("Landroid/opengl/GLSurfaceView;".to_owned()))
    } else if text::same(method, "setContentView") {
        match (object_arg(args, 0), object_arg(args, 1)) {
            (Ok(activity), Ok(view)) => Some(Query::SetContentView { activity, view }),
            _ => None,
        }
    } else {
        None
    }
}

/// An application gets a surface of 320 by 480.
pub open spec fn initialize(w: WorldView, args: Seq<ValueView>, view: u32) -> Effected {
    gives(
        WorldView {
            framework: FrameworkView {
                gdx_view: Some(view),
                gdx_listener: convert::id_of(value::at(args, 1)),
                surface_size: (320, 480),
                surface_events: w.framework.surface_events.push(
                    "created:"@ + text::decimal(view as int),
                ).push("changed:"@ + text::decimal(view as int) + ":0:320x480"@),
                ..w.framework
            },
            ..w
        },
        object_result(view),
    )
}

fn call_initialize(w: &mut World, args: &Vec<Value>, view: u32) -> (r: Result<Value, VmError>)
    ensures
        (final(w)@, error::outcome(r)) == initialize(old(w)@, value::views(args@), view),
{
    w.framework.gdx_view = Some(view);
    w.framework.gdx_listener = object_id(value_at(args, 1));
    w.framework.surface_size = (320, 480);
    let number = text::decimal_unsigned(view as u64);
    push_text(&mut w.framework.surface_events, text::join("created:", number.as_str()));
    push_text(
        &mut w.framework.surface_events,
        text::join3("changed:", number.as_str(), ":0:320x480"),
    );
    Ok(object_value(view))
}

/// What the surroundings answer to a content view: a result, or a message.
pub open spec fn shown(args: Seq<ValueView>, answers: Seq<AnswerView>) -> Result<
    ValueView,
    error::ErrorView,
> {
    match convert::reference_arg(args, 0) {
        Err(e) => Err(e),
        Ok(_) => match convert::reference_arg(args, 1) {
            Err(e) => Err(e),
            Ok(_) => if answers.len() > 0 && answers[0] is Framework {
                match answers[0]->Framework_0 {
                    Ok(r) => Ok(host::lifted(r)),
                    Err(message) => Err(error::fault(0, 0, message)),
                }
            } else {
                Ok(ValueView::Void)
            },
        },
    }
}

fn call_show(args: &Vec<Value>, answers: &Answers) -> (r: Result<Value, VmError>)
    ensures
        error::outcome(r) == shown(value::views(args@), host::answers_view(answers@)),
{
    let _ = object_arg(args, 0)?;
    let _ = object_arg(args, 1)?;
    if answers.len() > 0 {
        match &answers[0] {
            Answer::Framework(Ok(r)) => Ok(host::lift(r)),
            Answer::Framework(Err(message)) => Err(failure_text(0, 0, message.clone())),
            _ => Ok(Value::Void),
        }
    } else {
        Ok(Value::Void)
    }
}

pub open spec fn android(
    w: WorldView,
    method: Seq<char>,
    args: Seq<ValueView>,
    answers: Seq<AnswerView>,
) -> Option<Effected> {
    if method == "getType"@ {
        Some(gives(w, ValueView::Null))
    } else if method == "initializeForView"@ {
        Some(initialize(w, args, host::view_in(answers)))
    } else if method == "getWindow"@ {
        Some(makes(w, "Landroid/view/Window;"@))
    } else if method == "requestWindowFeature"@ {
        match convert::reference_arg(args, 0) {
            Err(e) => Some((w, Err(e))),
            Ok(_) => Some(gives(w, ValueView::Int(1))),
        }
    } else if method == "setContentView"@ {
        Some((w, shown(args, answers)))
    } else if method == "getInput"@ {
        Some(get_input(w))
    } else if method == "getAudio"@ {
        Some(get_audio(w))
    } else if method == "getFiles"@ {
        Some(get_files(w))
    } else if method == "getGraphics"@ {
        Some(get_graphics(w))
    } else if method == "getAssets"@ {
        Some(makes(w, "Landroid/content/res/AssetManager;"@))
    } else if method == "getPreferences"@ {
        Some(makes(w, "Lcom/badlogic/gdx/Preferences;"@))
    } else if method == "createWakeLock"@ || method == "onCreate"@ || method == "postRunnable"@ {
        Some(gives(w, ValueView::Void))
    } else {
        None
    }
}

pub fn call_android(w: &mut World, method: &str, args: &Vec<Value>, answers: &Answers) -> (r: Option<
    Result<Value, VmError>,
>)
    ensures
        crate::framework::dispatch::effected(final(w)@, r) == android(
            old(w)@,
            method@,
            value::views(args@),
            host::answers_view(answers@),
        ),
        r is None ==> final(w)@ == old(w)@,
{
    if text::same(method, "getType") {
        Some(Ok(Value::Null))
    } else if text::same(method, "initializeForView") {
        let view = host::get_view(answers);
        Some(call_initialize(w, args, view))
    } else if text::same(method, "getWindow") {
        Some(make(w, "Landroid/view/Window;"))
    } else if text::same(method, "requestWindowFeature") {
        match object_arg(args, 0) {
            Err(e) => Some(Err(e)),
            Ok(_) => Some(Ok(Value::Int(1))),
        }
    } else if text::same(method, "setContentView") {
        Some(call_show(args, answers))
    } else if text::same(method, "getInput") {
        Some(find_input(w))
    } else if text::same(method, "getAudio") {
        Some(find_audio(w))
    } else if text::same(method, "getFiles") {
        Some(find_files(w))
    } else if text::same(method, "getGraphics") {
        Some(find_graphics(w))
    } else if text::same(method, "getAssets") {
        Some(make(w, "Landroid/content/res/AssetManager;"))
    } else if text::same(method, "getPreferences") {
        Some(make(w, "Lcom/badlogic/gdx/Preferences;"))
    } else if text::same(method, "createWakeLock") || text::same(method, "onCreate") || text::same(
        method,
        "postRunnable",
    ) {
        Some(Ok(Value::Void))
    } else {
        None
    }
}

/// `AndroidGraphics.getView`: the view is asked for once.
pub open spec fn graphics_question(
    w: WorldView,
    method: Seq<char>,
    answers: Seq<AnswerView>,
) -> Option<QueryView> {
    if answers.len() == 0 && method == "getView"@ && w.framework.gdx_view is None {
        Some(QueryView::AllocView("Landroid/opengl/GLSurfaceView;"@))
    } else {
        None
    }
}

pub fn ask_graphics(w: &World, method: &str, answers: &Answers) -> (r: Option<Query>)
    ensures
        host::asked(r) == graphics_question(w@, method@, host::answers_view(answers@)),
{
    if answers.len() == 0 && text::same(method, "getView") && w.framework.gdx_view.is_none() {
        Some(Query::AllocView("Landroid/opengl/GLSurfaceView;".to_owned()))
    } else {
        None
    }
}

pub open spec fn android_graphics(
    w: WorldView,
    method: Seq<char>,
    answers: Seq<AnswerView>,
) -> Option<Effected> {
    if method == "getView"@ {
        match w.framework.gdx_view {
            Some(view) => Some(gives(w, object_result(view))),
            None => {
                let view = host::view_in(answers);
                Some(
                    gives(
                        WorldView {
                            framework: FrameworkView { gdx_view: Some(view), ..w.framework },
                            ..w
                        },
                        object_result(view),
                    ),
                )
            },
        }
    } else {
        None
    }
}

pub fn call_android_graphics(w: &mut World, method: &str, answers: &Answers) -> (r: Option<
    Result<Value, VmError>,
>)
    ensures
        crate::framework::dispatch::effected(final(w)@, r) == android_graphics(
            old(w)@,
            method@,
            host::answers_view(answers@),
        ),
        r is None ==> final(w)@ == old(w)@,
{
    if text::same(method, "getView") {
        match w.framework.gdx_view {
            Some(view) => Some(Ok(object_value(view))),
            None => {
                let view = host::get_view(answers);
                w.framework.gdx_view = Some(view);
                Some(Ok(object_value(view)))
            },
        }
    } else {
        None
    }
}

/// `Application`.
pub open spec fn application(w: WorldView, method: Seq<char>) -> Option<Effected> {
    if method == "getType"@ {
        Some(gives(w, ValueView::Null))
    } else if method == "getPreferences"@ {
        Some(makes(w, "Lcom/badlogic/gdx/Preferences;"@))
    } else if method == "getAudio"@ {
        Some(makes(w, "Lcom/badlogic/gdx/Audio;"@))
    } else if method == "getGraphics"@ {
        Some(get_graphics(w))
    } else if method == "log"@ {
        Some(gives(w, ValueView::Void))
    } else {
        None
    }
}

pub fn call_application(w: &mut World, method: &str) -> (r: Option<Result<Value, VmError>>)
    ensures
        crate::framework::dispatch::effected(final(w)@, r) == application(old(w)@, method@),
        r is None ==> final(w)@ == old(w)@,
{
    if text::same(method, "getType") {
        Some(Ok(Value::Null))
    } else if text::same(method, "getPreferences") {
        Some(make(w, "Lcom/badlogic/gdx/Preferences;"))
    } else if text::same(method, "getAudio") {
        Some(make(w, "Lcom/badlogic/gdx/Audio;"))
    } else if text::same(method, "getGraphics") {
        Some(find_graphics(w))
    } else if text::same(method, "log") {
        Some(Ok(Value::Void))
    } else {
        None
    }
}

/// The methods of an application's listener, which do nothing here.
pub open spec fn listens(method: Seq<char>) -> bool {
    method == "create"@ || method == "resize"@ || method == "render"@ || method == "pause"@
        || method == "resume"@ || method == "dispose"@
}

pub fn is_listening(method: &str) -> (r: bool)
    ensures
        r == listens(method@),
{
    text::same(method, "create") || text::same(method, "resize") || text::same(method, "render")
        || text::same(method, "pause") || text::same(method, "resume") || text::same(
        method,
        "dispose",
    )
}

// `Graphics`.

pub open spec fn quiet_graphics(method: Seq<char>) -> bool {
    method == "setVSync"@ || method == "setContinuousRendering"@ || method == "setDisplayMode"@
        || method == "setTitle"@ || method == "setResizable"@ || method == "setFullscreenMode"@
        || method == "setWindowedMode"@ || method == "setSystemCursor"@ || method
        == "setUndecorated"@ || method == "setBorderlessWindow"@ || method == "setForegroundFPS"@
        || method == "setIdleFPS"@
}

fn is_quiet_graphics(method: &str) -> (r: bool)
    ensures
        r == quiet_graphics(method@),
{
    text::same(method, "setVSync") || text::same(method, "setContinuousRendering") || text::same(
        method,
        "setDisplayMode",
    ) || text::same(method, "setTitle") || text::same(method, "setResizable") || text::same(
        method,
        "setFullscreenMode",
    ) || text::same(method, "setWindowedMode") || text::same(method, "setSystemCursor")
        || text::same(method, "setUndecorated") || text::same(method, "setBorderlessWindow")
        || text::same(method, "setForegroundFPS") || text::same(method, "setIdleFPS")
}

/// A sixtieth of a second.
pub open spec fn frame_time() -> u32 {
    arith::single_quotient(0x3f80_0000, 0x4270_0000)
}

pub open spec fn graphics(w: WorldView, method: Seq<char>) -> Option<Effected> {
    if method == "getWidth"@ {
        Some(gives(w, ValueView::Int(w.framework.surface_size.0)))
    } else if method == "getHeight"@ {
        Some(gives(w, ValueView::Int(w.framework.surface_size.1)))
    } else if method == "getDeltaTime"@ || method == "getRawDeltaTime"@ {
        Some(gives(w, ValueView::Float(frame_time())))
    } else if method == "getFramesPerSecond"@ {
        Some(gives(w, ValueView::Int(60)))
    } else if method == "getGL10"@ || method == "getGLCommon"@ {
        Some(makes(w, "Lcom/badlogic/gdx/graphics/GL10;"@))
    } else if quiet_graphics(method) {
        Some(gives(w, ValueView::Void))
    } else if method == "isFullscreen"@ || method == "isGL30Available"@ || method
        == "isGL31Available"@ || method == "isGL32Available"@ {
        Some(gives(w, ValueView::Int(0)))
    } else if method == "getDensity"@ || method == "getPpcX"@ || method == "getPpcY"@ {
        Some(gives(w, ValueView::Int(1)))
    } else {
        None
    }
}

pub fn call_graphics(w: &mut World, method: &str) -> (r: Option<Result<Value, VmError>>)
    ensures
        crate::framework::dispatch::effected(final(w)@, r) == graphics(old(w)@, method@),
        r is None ==> final(w)@ == old(w)@,
{
    if text::same(method, "getWidth") {
        Some(Ok(Value::Int(w.framework.surface_size.0)))
    } else if text::same(method, "getHeight") {
        Some(Ok(Value::Int(w.framework.surface_size.1)))
    } else if text::same(method, "getDeltaTime") || text::same(method, "getRawDeltaTime") {
        Some(Ok(Value::Float(arith::single_divide(0x3f80_0000, 0x4270_0000))))
    } else if text::same(method, "getFramesPerSecond") {
        Some(Ok(Value::Int(60)))
    } else if text::same(method, "getGL10") || text::same(method, "getGLCommon") {
        Some(make(w, "Lcom/badlogic/gdx/graphics/GL10;"))
    } else if is_quiet_graphics(method) {
        Some(Ok(Value::Void))
    } else if text::same(method, "isFullscreen") || text::same(method, "isGL30Available")
        || text::same(method, "isGL31Available") || text::same(method, "isGL32Available") {
        Some(Ok(Value::Int(0)))
    } else if text::same(method, "getDensity") || text::same(method, "getPpcX") || text::same(
        method,
        "getPpcY",
    ) {
        Some(Ok(Value::Int(1)))
    } else {
        None
    }
}

/// `Input`: nothing is ever pressed, turned or tilted.
pub open spec fn input(method: Seq<char>) -> Option<ValueView> {
    if method == "isTouched"@ || method == "isKeyPressed"@ || method == "isPeripheralAvailable"@
        || method == "getRotation"@ || method == "getFreePointerIndex"@ || method
        == "lookUpPointerIndex"@ || method == "getAccelerometerX"@ || method
        == "getAccelerometerY"@ || method == "getAccelerometerZ"@ || method == "getAzimuth"@
        || method == "getPitch"@ || method == "getRoll"@ {
        Some(ValueView::Int(0))
    } else if method == "setInputProcessor"@ || method == "setCatchBackKey"@ || method
        == "setOnscreenKeyboardVisible"@ || method == "getTextInput"@ {
        Some(ValueView::Void)
    } else if method == "getCurrentEventTime"@ {
        Some(ValueView::Long(0))
    } else {
        None
    }
}

pub fn call_input(method: &str) -> (r: Option<Value>)
    ensures
        value::owned(r) == input(method@),
{
    if text::same(method, "isTouched") || text::same(method, "isKeyPressed") || text::same(
        method,
        "isPeripheralAvailable",
    ) || text::same(method, "getRotation") || text::same(method, "getFreePointerIndex")
        || text::same(method, "lookUpPointerIndex") || text::same(method, "getAccelerometerX")
        || text::same(method, "getAccelerometerY") || text::same(method, "getAccelerometerZ")
        || text::same(method, "getAzimuth") || text::same(method, "getPitch") || text::same(
        method,
        "getRoll",
    ) {
        Some(Value::Int(0))
    } else if text::same(method, "setInputProcessor") || text::same(method, "setCatchBackKey")
        || text::same(method, "setOnscreenKeyboardVisible") || text::same(
        method,
        "getTextInput",
    ) {
        Some(Value::Void)
    } else if text::same(method, "getCurrentEventTime") {
        Some(Value::Long(0))
    } else {
        None
    }
}

/// `Sound` and `Music`: nothing is heard.
pub open spec fn sound(method: Seq<char>) -> Option<ValueView> {
    if method == "play"@ || method == "loop"@ || method == "stop"@ {
        Some(ValueView::Long(0))
    } else if method == "dispose"@ {
        Some(ValueView::Void)
    } else {
        None
    }
}

pub fn call_sound(method: &str) -> (r: Option<Value>)
    ensures
        value::owned(r) == sound(method@),
{
    if text::same(method, "play") || text::same(method, "loop") || text::same(method, "stop") {
        Some(Value::Long(0))
    } else if text::same(method, "dispose") {
        Some(Value::Void)
    } else {
        None
    }
}

pub open spec fn music(method: Seq<char>) -> Option<ValueView> {
    if method == "play"@ || method == "stop"@ || method == "setLooping"@ || method == "dispose"@
        || method == "setVolume"@ {
        Some(ValueView::Void)
    } else if method == "isPlaying"@ {
        Some(ValueView::Int(0))
    } else {
        None
    }
}

pub fn call_music(method: &str) -> (r: Option<Value>)
    ensures
        value::owned(r) == music(method@),
{
    if text::same(method, "play") || text::same(method, "stop") || text::same(method, "setLooping")
        || text::same(method, "dispose") || text::same(method, "setVolume") {
        Some(Value::Void)
    } else if text::same(method, "isPlaying") {
        Some(Value::Int(0))
    } else {
        None
    }
}

/// `Preferences`: nothing is kept.
pub open spec fn preferences(method: Seq<char>) -> Option<ValueView> {
    if method == "getString"@ {
        Some(ValueView::String(Seq::empty()))
    } else if method == "getBoolean"@ || method == "getInteger"@ {
        Some(ValueView::Int(0))
    } else if method == "putString"@ || method == "putBoolean"@ || method == "putInteger"@
        || method == "flush"@ {
        Some(ValueView::Void)
    } else {
        None
    }
}

pub fn call_preferences(method: &str) -> (r: Option<Value>)
    ensures
        value::owned(r) == preferences(method@),
{
    if text::same(method, "getString") {
        Some(Value::String(String::new()))
    } else if text::same(method, "getBoolean") || text::same(method, "getInteger") {
        Some(Value::Int(0))
    } else if text::same(method, "putString") || text::same(method, "putBoolean") || text::same(
        method,
        "putInteger",
    ) || text::same(method, "flush") {
        Some(Value::Void)
    } else {
        None
    }
}

// Files.

/// The path that an optional second argument names.
pub open spec fn path_arg(w: WorldView, args: Seq<ValueView>) -> Result<
    Option<Seq<char>>,
    error::ErrorView,
> {
    match value::at(args, 1) {
        None => Ok(None),
        Some(v) => match w.text_arg(Some(v), 0) {
            Ok(s) => Ok(Some(s)),
            Err(e) => Err(e),
        },
    }
}

pub open spec fn path_of(r: Result<Option<String>, VmError>) -> Result<
    Option<Seq<char>>,
    error::ErrorView,
> {
    match r {
        Ok(s) => Ok(world::some_string(s)),
        Err(e) => Err(e@),
    }
}

pub fn find_path(w: &World, args: &Vec<Value>) -> (r: Result<Option<String>, VmError>)
    ensures
        path_of(r) == path_arg(w@, value::views(args@)),
{
    match value_at(args, 1) {
        None => Ok(None),
        Some(v) => {
            let s = w.string_value(Some(v), 0)?;
            Ok(Some(s))
        },
    }
}

/// `Files`: a handle with a path.
pub open spec fn files(w: WorldView, method: Seq<char>, args: Seq<ValueView>) -> Option<Effected> {
    if method == "internal"@ || method == "external"@ || method == "local"@ {
        match path_arg(w, args) {
            Err(e) => Some((w, Err(e))),
            Ok(path) => Some(
                gives(
                    w.with_object(
                        world::instance_of("Lcom/badlogic/gdx/files/FileHandle;"@),
                    ).with_field(
                        w.fresh(),
                        "path"@,
                        ValueView::String(
                            match path {
                                Some(s) => s,
                                None => Seq::empty(),
                            },
                        ),
                    ),
                    object_result(w.fresh()),
                ),
            ),
        }
    } else {
        None
    }
}

pub fn call_files(w: &mut World, method: &str, args: &Vec<Value>) -> (r: Option<
    Result<Value, VmError>,
>)
    ensures
        crate::framework::dispatch::effected(final(w)@, r) == files(
            old(w)@,
            method@,
            value::views(args@),
        ),
        r is None ==> final(w)@ == old(w)@,
{
    if text::same(method, "internal") || text::same(method, "external") || text::same(
        method,
        "local",
    ) {
        let path = match find_path(w, args) {
            Err(e) => {
                return Some(Err(e));
            },
            Ok(Some(s)) => s,
            Ok(None) => String::new(),
        };
        let id = w.alloc_instance("Lcom/badlogic/gdx/files/FileHandle;");
        w.set_object_field(id, "path", Value::String(path));
        Some(Ok(object_value(id)))
    } else {
        None
    }
}

/// The path that a handle carries itself.
pub open spec fn handle_path(w: WorldView, args: Seq<ValueView>) -> Option<Seq<char>> {
    match convert::id_of(value::at(args, 0)) {
        Some(id) => match w.field(id, "path"@) {
            Some(ValueView::String(s)) => Some(s),
            _ => None,
        },
        None => None,
    }
}

fn find_handle_path(w: &World, args: &Vec<Value>) -> (r: Option<String>)
    ensures
        world::some_string(r) == handle_path(w@, value::views(args@)),
{
    match object_id(value_at(args, 0)) {
        Some(id) => match w.field(id, "path") {
            Some(Value::String(s)) => Some(s.clone()),
            _ => None,
        },
        None => None,
    }
}

pub open spec fn handle_method(method: Seq<char>) -> bool {
    method == "exists"@ || method == "length"@ || method == "readBytes"@ || method
        == "readString"@
}

fn is_handle_method(method: &str) -> (r: bool)
    ensures
        r == handle_method(method@),
{
    text::same(method, "exists") || text::same(method, "length") || text::same(method, "readBytes")
        || text::same(method, "readString")
}

/// The contents of the asset are asked for.
pub open spec fn handle_question(
    w: WorldView,
    method: Seq<char>,
    args: Seq<ValueView>,
    answers: Seq<AnswerView>,
) -> Option<QueryView> {
    if answers.len() == 0 && handle_method(method) {
        match handle_path(w, args) {
            Some(path) => Some(QueryView::Bytes(path)),
            None => None,
        }
    } else {
        None
    }
}

pub fn ask_handle(w: &World, method: &str, args: &Vec<Value>, answers: &Answers) -> (r: Option<
    Query,
>)
    ensures
        host::asked(r) == handle_question(
            w@,
            method@,
            value::views(args@),
            host::answers_view(answers@),
        ),
{
    if answers.len() == 0 && is_handle_method(method) {
        match find_handle_path(w, args) {
            Some(path) => Some(Query::Bytes(path)),
            None => None,
        }
    } else {
        None
    }
}

/// The text of bytes that are no UTF-8, with replacements for what is no text.
pub uninterp spec fn lossy_text(bytes: Seq<u8>) -> Seq<char>;

/// `String::from_utf8_lossy`: bytes that are UTF-8 give the text that they encode. What other
/// bytes give is named, not described.
#[verifier::external_body]
fn decode(bytes: &Vec<u8>) -> (r: String)
    ensures
        valid_utf8(bytes@) ==> r@ == decode_utf8(bytes@),
        !valid_utf8(bytes@) ==> r@ == lossy_text(bytes@),
{
    String::from_utf8_lossy(bytes).into_owned()
}

/// The text that bytes hold.
pub open spec fn text_in_bytes(bytes: Seq<u8>) -> Seq<char> {
    if valid_utf8(bytes) {
        decode_utf8(bytes)
    } else {
        lossy_text(bytes)
    }
}

pub open spec fn byte_values(bytes: Seq<u8>) -> Seq<ValueView> {
    bytes.map_values(|b: u8| ValueView::Int(b as i32))
}

fn bytes_to_values(bytes: &Vec<u8>) -> (r: Vec<Value>)
    ensures
        value::views(r@) == byte_values(bytes@),
{
    let mut r: Vec<Value> = Vec::new();
    let mut i: usize = 0;
    assert(value::views(r@) =~= byte_values(bytes@).take(0));
    while i < bytes.len()
        invariant
            i <= bytes.len(),
            value::views(r@) == byte_values(bytes@).take(i as int),
        decreases bytes.len() - i,
    {
        push_value(&mut r, Value::Int(bytes[i] as i32));
        i += 1;
        assert(value::views(r@) =~= byte_values(bytes@).take(i as int));
    }
    assert(byte_values(bytes@).take(i as int) =~= byte_values(bytes@));
    r
}

/// `FileHandle`: reading an asset.
pub open spec fn handle(
    w: WorldView,
    method: Seq<char>,
    args: Seq<ValueView>,
    answers: Seq<AnswerView>,
) -> Option<Effected> {
    let bytes = match handle_path(w, args) {
        Some(_) => host::bytes_in(answers),
        None => None,
    };
    if method == "exists"@ {
        Some(gives(w, activity::truth(bytes is Some)))
    } else if method == "length"@ {
        Some(
            gives(
                w,
                ValueView::Long(
                    match bytes {
                        Some(b) => b.len() as i64,
                        None => 0,
                    },
                ),
            ),
        )
    } else if method == "readBytes"@ {
        match bytes {
            Some(b) => Some(
                gives(
                    w.with_object(
                        ObjectView::Array { component: "B"@, values: byte_values(b) },
                    ),
                    object_result(w.fresh()),
                ),
            ),
            None => Some(gives(w, ValueView::Null)),
        }
    } else if method == "readString"@ {
        Some(
            gives(
                w,
                ValueView::String(
                    match bytes {
                        Some(b) => text_in_bytes(b),
                        None => Seq::empty(),
                    },
                ),
            ),
        )
    } else {
        None
    }
}

pub fn call_handle(w: &mut World, method: &str, args: &Vec<Value>, answers: &Answers) -> (r: Option<
    Result<Value, VmError>,
>)
    ensures
        crate::framework::dispatch::effected(final(w)@, r) == handle(
            old(w)@,
            method@,
            value::views(args@),
            host::answers_view(answers@),
        ),
        r is None ==> final(w)@ == old(w)@,
{
    let bytes = match find_handle_path(w, args) {
        Some(_) => host::get_bytes(answers),
        None => None,
    };
    if text::same(method, "exists") {
        if bytes.is_some() {
            Some(Ok(Value::Int(1)))
        } else {
            Some(Ok(Value::Int(0)))
        }
    } else if text::same(method, "length") {
        match bytes {
            Some(b) => Some(Ok(Value::Long(b.len() as i64))),
            None => Some(Ok(Value::Long(0))),
        }
    } else if text::same(method, "readBytes") {
        match bytes {
            Some(b) => {
                let id = w.allocate(
                    HeapObject::Array { component: "B".to_owned(), values: bytes_to_values(b) },
                );
                Some(Ok(object_value(id)))
            },
            None => Some(Ok(Value::Null)),
        }
    } else if text::same(method, "readString") {
        match bytes {
            Some(b) => Some(Ok(Value::String(decode(b)))),
            None => Some(Ok(Value::String(String::new()))),
        }
    } else {
        None
    }
}

} // verus!
