//! Objects, views, sound, files and the rest.

use vstd::prelude::*;

use crate::convert;
use crate::convert::{int_arg, object_arg};
use crate::error;
use crate::error::{Outcome, VmError};
use crate::float;
use crate::framework::activity;
use crate::framework::graphics;
use crate::framework::system::{gives, make, makes};
use crate::host;
use crate::host::{AnswerView, Answers, Effect, EffectView, Query, QueryView, Style};
use crate::table;
use crate::table::{get_id, get_named, put_id, remove_id, remove_named};
use crate::text;
use crate::value;
use crate::value::{value_at, HeapObject, ObjectId, ObjectView, Value, ValueView};
use crate::world;
use crate::world::{
    max_int, Effected, FrameworkView, MediaPlayerState, World, WorldView,
};

verus! {

// Constructors.

pub open spec fn lists_of(class_name: Seq<char>) -> bool {
    class_name == "Ljava/util/ArrayList;"@ || class_name == "Ljava/util/LinkedList;"@ || class_name
        == "Ljava/util/HashMap;"@ || class_name == "Ljava/util/Vector;"@
}

fn is_list(class_name: &str) -> (r: bool)
    ensures
        r == lists_of(class_name@),
{
    text::same(class_name, "Ljava/util/ArrayList;") || text::same(
        class_name,
        "Ljava/util/LinkedList;",
    ) || text::same(class_name, "Ljava/util/HashMap;") || text::same(
        class_name,
        "Ljava/util/Vector;",
    )
}

/// The classes whose constructors the framework answers for.
pub open spec fn constructs(class_name: Seq<char>) -> bool {
    text::starts(class_name, "Lcom/badlogic/gdx/"@) || text::starts(class_name, "Landroid/"@)
        || text::starts(class_name, "Ljava/lang/"@) || lists_of(class_name)
}

pub fn is_constructed(class_name: &str) -> (r: bool)
    ensures
        r == constructs(class_name@),
{
    text::starts_with(class_name, "Lcom/badlogic/gdx/") || text::starts_with(
        class_name,
        "Landroid/",
    ) || text::starts_with(class_name, "Ljava/lang/") || is_list(class_name)
}

/// A constructor makes its receiver an empty list, or a builder with an initial text, where
/// the class is one of those.
pub open spec fn construct(w: WorldView, class_name: Seq<char>, args: Seq<ValueView>) -> WorldView {
    match value::at(args, 0) {
        Some(ValueView::Object(id)) => if lists_of(class_name) {
            w.replaced(id, ObjectView::Collection(Seq::empty()))
        } else if class_name == "Ljava/lang/StringBuilder;"@ {
            w.replaced(
                id,
                ObjectView::StringBuilder(
                    match w.text_value(value::at(args, 1)) {
                        Some(s) => s,
                        None => Seq::empty(),
                    },
                ),
            )
        } else {
            w
        },
        _ => w,
    }
}

pub fn call_constructor(w: &mut World, class_name: &str, args: &Vec<Value>)
    ensures
        final(w)@ == construct(old(w)@, class_name@, value::views(args@)),
{
    match value_at(args, 0) {
        Some(Value::Object(id)) => {
            if is_list(class_name) {
                let values: Vec<Value> = Vec::new();
                assert(value::views(values@) =~= Seq::empty());
                w.replace(*id, HeapObject::Collection(values));
            } else if text::same(class_name, "Ljava/lang/StringBuilder;") {
                let initial = match w.text_value(value_at(args, 1)) {
                    Some(s) => s,
                    None => String::new(),
                };
                w.replace(*id, HeapObject::StringBuilder(initial));
            }
        },
        _ => {},
    }
}

/// `Object.getClass`.
pub open spec fn get_class(w: WorldView, args: Seq<ValueView>) -> Effected {
    match value::at(args, 0) {
        Some(ValueView::Object(id)) => match w.class_of(id) {
            Some(name) => gives(
                w.with_object(ObjectView::Class(name)),
                ValueView::Object(w.fresh()),
            ),
            None => gives(w, ValueView::Null),
        },
        _ => gives(w, ValueView::Null),
    }
}

pub fn call_get_class(w: &mut World, args: &Vec<Value>) -> (r: Result<Value, VmError>)
    ensures
        (final(w)@, error::outcome(r)) == get_class(old(w)@, value::views(args@)),
{
    let name = match value_at(args, 0) {
        Some(Value::Object(id)) => match w.class_name(*id) {
            Some(name) => name.to_owned(),
            None => {
                return Ok(Value::Null);
            },
        },
        _ => {
            return Ok(Value::Null);
        },
    };
    let id = w.allocate(HeapObject::Class(name));
    Ok(Value::Object(id))
}

/// `Class.forName`: a descriptor, or a name with stops.
pub open spec fn descriptor_for(requested: Seq<char>) -> Seq<char> {
    if text::starts(requested, "L"@) && text::ends(requested, ";"@) {
        requested
    } else {
        "L"@ + text::slashed(requested) + ";"@
    }
}

pub open spec fn class_method(method: Seq<char>) -> bool {
    method == "getMethod"@ || method == "forName"@
}

pub open spec fn class(w: WorldView, method: Seq<char>, args: Seq<ValueView>) -> Effected {
    if method == "getMethod"@ {
        makes(w, "Ljava/lang/reflect/Method;"@)
    } else {
        match w.text_arg(value::at(args, 0), 0) {
            Err(e) => (w, Err(e)),
            Ok(requested) => gives(
                w.with_object(ObjectView::Class(descriptor_for(requested))),
                ValueView::Object(w.fresh()),
            ),
        }
    }
}

pub fn call_class(w: &mut World, method: &str, args: &Vec<Value>) -> (r: Result<Value, VmError>)
    ensures
        (final(w)@, error::outcome(r)) == class(old(w)@, method@, value::views(args@)),
{
    if text::same(method, "getMethod") {
        return make(w, "Ljava/lang/reflect/Method;");
    }
    let requested = w.string_arg(args, 0)?;
    let descriptor = if text::starts_with(requested.as_str(), "L") && text::ends_with(
        requested.as_str(),
        ";",
    ) {
        requested
    } else {
        text::join3("L", text::slashes_for_stops(requested.as_str()).as_str(), ";")
    };
    let id = w.allocate(HeapObject::Class(descriptor));
    Ok(Value::Object(id))
}

// Views.

/// `android.view.MotionEvent`.
pub open spec fn motion(w: WorldView, method: Seq<char>, args: Seq<ValueView>) -> Outcome {
    match convert::reference_arg(args, 0) {
        Err(e) => Err(e),
        Ok(event) => {
            let action = activity::or_zero(w.field_int(event, "action"@));
            if method == "getAction"@ {
                Ok(ValueView::Int(action))
            } else if method == "getActionMasked"@ {
                Ok(ValueView::Int(action & 0xff))
            } else if method == "getActionIndex"@ {
                Ok(ValueView::Int((action >> 8) & 0xff))
            } else if method == "getX"@ {
                Ok(ValueView::Float(single_or_zero(w.field_single(event, "x"@))))
            } else if method == "getY"@ {
                Ok(ValueView::Float(single_or_zero(w.field_single(event, "y"@))))
            } else if method == "getPointerCount"@ {
                Ok(ValueView::Int(1))
            } else if method == "getPointerId"@ || method == "findPointerIndex"@ {
                Ok(ValueView::Int(0))
            } else {
                Ok(ValueView::Void)
            }
        },
    }
}

pub open spec fn single_or_zero(v: Option<u32>) -> u32 {
    match v {
        Some(n) => n,
        None => 0,
    }
}

fn single_field(w: &World, id: ObjectId, name: &str) -> (r: u32)
    ensures
        r == single_or_zero(w@.field_single(id, name@)),
{
    match w.object_field_float(id, name) {
        Some(n) => n,
        None => 0,
    }
}

pub fn call_motion(w: &World, method: &str, args: &Vec<Value>) -> (r: Result<Value, VmError>)
    ensures
        error::outcome(r) == motion(w@, method@, value::views(args@)),
{
    let event = object_arg(args, 0)?;
    let action: i32 = match w.object_field_int(event, "action") {
        Some(n) => n,
        None => 0,
    };
    if text::same(method, "getAction") {
        Ok(Value::Int(action))
    } else if text::same(method, "getActionMasked") {
        Ok(Value::Int(action & 0xff))
    } else if text::same(method, "getActionIndex") {
        Ok(Value::Int((action >> 8) & 0xff))
    } else if text::same(method, "getX") {
        Ok(Value::Float(single_field(w, event, "x")))
    } else if text::same(method, "getY") {
        Ok(Value::Float(single_field(w, event, "y")))
    } else if text::same(method, "getPointerCount") {
        Ok(Value::Int(1))
    } else if text::same(method, "getPointerId") || text::same(method, "findPointerIndex") {
        Ok(Value::Int(0))
    } else {
        Ok(Value::Void)
    }
}

pub open spec fn view_class(class_name: Seq<char>) -> bool {
    text::starts(class_name, "Landroid/view/"@) || text::starts(class_name, "Landroid/widget/"@)
        || class_name == "Landroid/opengl/GLSurfaceView;"@
}

pub fn is_view_class(class_name: &str) -> (r: bool)
    ensures
        r == view_class(class_name@),
{
    text::starts_with(class_name, "Landroid/view/") || text::starts_with(
        class_name,
        "Landroid/widget/",
    ) || text::same(class_name, "Landroid/opengl/GLSurfaceView;")
}

/// The id of a view that carries none itself is asked for.
pub open spec fn view_question(
    w: WorldView,
    method: Seq<char>,
    args: Seq<ValueView>,
    answers: Seq<AnswerView>,
) -> Option<QueryView> {
    if answers.len() == 0 && method == "getId"@ {
        match convert::reference_arg(args, 0) {
            Ok(view) => if w.field_int(view, "view_id"@) is None {
                Some(QueryView::ViewId(view))
            } else {
                None
            },
            Err(_) => None,
        }
    } else {
        None
    }
}

pub fn ask_view(w: &World, method: &str, args: &Vec<Value>, answers: &Answers) -> (r: Option<Query>)
    ensures
        host::asked(r) == view_question(
            w@,
            method@,
            value::views(args@),
            host::answers_view(answers@),
        ),
{
    if answers.len() == 0 && text::same(method, "getId") {
        match object_arg(args, 0) {
            Ok(view) => if w.object_field_int(view, "view_id").is_none() {
                Some(Query::ViewId(view))
            } else {
                None
            },
            Err(_) => None,
        }
    } else {
        None
    }
}

pub open spec fn set_listener(w: WorldView, method: Seq<char>, args: Seq<ValueView>) -> Effected {
    match convert::reference_arg(args, 0) {
        Err(e) => (w, Err(e)),
        Ok(view) => match convert::reference_arg(args, 1) {
            Err(e) => (w, Err(e)),
            Ok(listener) => if method == "setOnTouchListener"@ {
                gives(
                    WorldView {
                        touch_listeners: table::store(w.touch_listeners, view, listener),
                        ..w
                    },
                    ValueView::Void,
                )
            } else {
                gives(
                    WorldView {
                        click_listeners: table::store(w.click_listeners, view, listener),
                        ..w
                    },
                    ValueView::Void,
                )
            },
        },
    }
}

pub open spec fn add_view(w: WorldView, args: Seq<ValueView>) -> Effected {
    match convert::reference_arg(args, 0) {
        Err(e) => (w, Err(e)),
        Ok(parent) => match convert::reference_arg(args, 1) {
            Err(e) => (w, Err(e)),
            Ok(child) => gives(
                w.did(
                    EffectView::EnsureView {
                        view: parent,
                        class_name: "Landroid/view/ViewGroup;"@,
                    },
                ).did(
                    EffectView::EnsureView { view: child, class_name: "Landroid/view/View;"@ },
                ).did(EffectView::AddChild { parent, child }),
                ValueView::Void,
            ),
        },
    }
}

/// The methods of views.
pub open spec fn view_call(
    w: WorldView,
    method: Seq<char>,
    args: Seq<ValueView>,
    answers: Seq<AnswerView>,
) -> Effected {
    if method == "setOnTouchListener"@ || method == "setOnClickListener"@ {
        set_listener(w, method, args)
    } else if method == "getId"@ {
        match convert::reference_arg(args, 0) {
            Err(e) => (w, Err(e)),
            Ok(view) => match w.field_int(view, "view_id"@) {
                Some(n) => gives(w, ValueView::Int(n)),
                None => match host::view_id_in(answers) {
                    Some(n) => gives(w, ValueView::Int(n)),
                    None => gives(w, ValueView::Int((-1) as i32)),
                },
            },
        }
    } else if method == "getWidth"@ {
        gives(w, ValueView::Int(float::larger(w.framework.surface_size.0 as int, 1) as i32))
    } else if method == "getHeight"@ {
        gives(w, ValueView::Int(float::larger(w.framework.surface_size.1 as int, 1) as i32))
    } else if method == "addView"@ {
        add_view(w, args)
    } else {
        gives(w, ValueView::Void)
    }
}

fn call_set_listener(w: &mut World, method: &str, args: &Vec<Value>) -> (r: Result<Value, VmError>)
    ensures
        (final(w)@, error::outcome(r)) == set_listener(old(w)@, method@, value::views(args@)),
{
    let view = object_arg(args, 0)?;
    let listener = object_arg(args, 1)?;
    if text::same(method, "setOnTouchListener") {
        put_id(&mut w.touch_listeners, view, listener);
    } else {
        put_id(&mut w.click_listeners, view, listener);
    }
    Ok(Value::Void)
}

fn call_add_view(w: &mut World, args: &Vec<Value>) -> (r: Result<Value, VmError>)
    ensures
        (final(w)@, error::outcome(r)) == add_view(old(w)@, value::views(args@)),
{
    let parent = object_arg(args, 0)?;
    let child = object_arg(args, 1)?;
    w.perform(
        Effect::EnsureView { view: parent, class_name: "Landroid/view/ViewGroup;".to_owned() },
    );
    w.perform(Effect::EnsureView { view: child, class_name: "Landroid/view/View;".to_owned() });
    w.perform(Effect::AddChild { parent, child });
    Ok(Value::Void)
}

pub fn call_view(w: &mut World, method: &str, args: &Vec<Value>, answers: &Answers) -> (r: Result<
    Value,
    VmError,
>)
    ensures
        (final(w)@, error::outcome(r)) == view_call(
            old(w)@,
            method@,
            value::views(args@),
            host::answers_view(answers@),
        ),
{
    if text::same(method, "setOnTouchListener") || text::same(method, "setOnClickListener") {
        call_set_listener(w, method, args)
    } else if text::same(method, "getId") {
        let view = object_arg(args, 0)?;
        match w.object_field_int(view, "view_id") {
            Some(n) => Ok(Value::Int(n)),
            None => match host::get_view_id(answers) {
                Some(n) => Ok(Value::Int(n)),
                None => Ok(Value::Int(-1)),
            },
        }
    } else if text::same(method, "getWidth") {
        Ok(Value::Int(max_int(w.framework.surface_size.0, 1)))
    } else if text::same(method, "getHeight") {
        Ok(Value::Int(max_int(w.framework.surface_size.1, 1)))
    } else if text::same(method, "addView") {
        call_add_view(w, args)
    } else {
        Ok(Value::Void)
    }
}

// Hardware and sound.

/// `android.hardware.SensorManager`.
pub open spec fn sensors(w: WorldView, method: Seq<char>) -> Effected {
    if method == "getDefaultSensor"@ {
        makes(w, "Landroid/hardware/Sensor;"@)
    } else if method == "getSensorList"@ {
        gives(
            w.with_object(ObjectView::Collection(Seq::empty())),
            ValueView::Object(w.fresh()),
        )
    } else if method == "registerListener"@ {
        gives(w, ValueView::Int(1))
    } else {
        gives(w, ValueView::Void)
    }
}

pub fn call_sensors(w: &mut World, method: &str) -> (r: Result<Value, VmError>)
    ensures
        (final(w)@, error::outcome(r)) == sensors(old(w)@, method@),
{
    if text::same(method, "getDefaultSensor") {
        make(w, "Landroid/hardware/Sensor;")
    } else if text::same(method, "getSensorList") {
        let id = w.alloc_collection();
        Ok(Value::Object(id))
    } else if text::same(method, "registerListener") {
        Ok(Value::Int(1))
    } else {
        Ok(Value::Void)
    }
}

/// `android.media.SoundPool`.
pub open spec fn sound(method: Seq<char>) -> ValueView {
    if method == "load"@ || method == "play"@ || method == "stop"@ || method == "pause"@ || method
        == "resume"@ || method == "unload"@ {
        ValueView::Int(1)
    } else {
        ValueView::Void
    }
}

pub fn call_sound(method: &str) -> (r: Value)
    ensures
        r@ == sound(method@),
{
    if text::same(method, "load") || text::same(method, "play") || text::same(method, "stop")
        || text::same(method, "pause") || text::same(method, "resume") || text::same(
        method,
        "unload",
    ) {
        Value::Int(1)
    } else {
        Value::Void
    }
}

pub open spec fn with_player(w: WorldView, id: u32, state: MediaPlayerState) -> WorldView {
    WorldView {
        framework: FrameworkView {
            media_players: table::store(w.framework.media_players, id, state),
            ..w.framework
        },
        ..w
    }
}

fn set_player(w: &mut World, id: u32, state: MediaPlayerState)
    ensures
        final(w)@ == with_player(old(w)@, id, state),
{
    put_id(&mut w.framework.media_players, id, state);
}

/// Every call of a player makes it known.
pub open spec fn known_player(w: WorldView, id: u32) -> WorldView {
    match table::lookup(w.framework.media_players, id) {
        Some(_) => w,
        None => with_player(w, id, world::idle_player()),
    }
}

pub open spec fn player_state(w: WorldView, id: u32) -> MediaPlayerState {
    match table::lookup(w.framework.media_players, id) {
        Some(state) => state,
        None => world::idle_player(),
    }
}

pub open spec fn player_id(args: Seq<ValueView>) -> u32 {
    match convert::reference_arg(args, 0) {
        Ok(id) => id,
        Err(_) => 0,
    }
}

/// `android.media.MediaPlayer`.
pub open spec fn media(w: WorldView, method: Seq<char>, args: Seq<ValueView>) -> Effected {
    let id = player_id(args);
    let state = player_state(w, id);
    let known = known_player(w, id);
    if method == "create"@ {
        gives(
            with_player(
                known.with_object(world::instance_of("Landroid/media/MediaPlayer;"@)),
                w.fresh(),
                MediaPlayerState { prepared: true, ..world::idle_player() },
            ),
            ValueView::Object(w.fresh()),
        )
    } else if method == "prepare"@ || method == "prepareAsync"@ {
        gives(
            with_player(known, id, MediaPlayerState { prepared: true, ..state }),
            ValueView::Void,
        )
    } else if method == "start"@ {
        gives(
            with_player(known, id, MediaPlayerState { playing: true, ..state }),
            ValueView::Void,
        )
    } else if method == "pause"@ {
        gives(
            with_player(known, id, MediaPlayerState { playing: false, ..state }),
            ValueView::Void,
        )
    } else if method == "stop"@ {
        gives(
            with_player(
                known,
                id,
                MediaPlayerState { playing: false, position_ms: 0, ..state },
            ),
            ValueView::Void,
        )
    } else if method == "reset"@ {
        gives(with_player(known, id, world::idle_player()), ValueView::Void)
    } else if method == "release"@ {
        gives(
            WorldView {
                framework: FrameworkView {
                    media_players: table::without(known.framework.media_players, id),
                    ..known.framework
                },
                ..known
            },
            ValueView::Void,
        )
    } else if method == "isPlaying"@ {
        gives(known, activity::truth(state.playing))
    } else if method == "isLooping"@ {
        gives(known, activity::truth(state.looping))
    } else if method == "setLooping"@ {
        match convert::integer_arg(args, 1) {
            Err(e) => (known, Err(e)),
            Ok(n) => gives(
                with_player(known, id, MediaPlayerState { looping: n != 0, ..state }),
                ValueView::Void,
            ),
        }
    } else if method == "seekTo"@ {
        match convert::integer_arg(args, 1) {
            Err(e) => (known, Err(e)),
            Ok(n) => gives(
                with_player(
                    known,
                    id,
                    MediaPlayerState {
                        position_ms: float::larger(n as int, 0) as i32,
                        ..state
                    },
                ),
                ValueView::Void,
            ),
        }
    } else if method == "getCurrentPosition"@ {
        gives(known, ValueView::Int(state.position_ms))
    } else if method == "getDuration"@ {
        gives(known, ValueView::Int(0))
    } else {
        gives(known, ValueView::Void)
    }
}

fn know_player(w: &mut World, id: u32) -> (r: MediaPlayerState)
    ensures
        final(w)@ == known_player(old(w)@, id),
        r == player_state(old(w)@, id),
{
    match get_id(&w.framework.media_players, id) {
        Some(state) => state,
        None => {
            let state = MediaPlayerState::default();
            set_player(w, id, state);
            state
        },
    }
}

fn truth_value(b: bool) -> (r: Value)
    ensures
        r@ == activity::truth(b),
{
    if b {
        Value::Int(1)
    } else {
        Value::Int(0)
    }
}

pub fn call_media(w: &mut World, method: &str, args: &Vec<Value>) -> (r: Result<Value, VmError>)
    ensures
        (final(w)@, error::outcome(r)) == media(old(w)@, method@, value::views(args@)),
{
    let id: u32 = match object_arg(args, 0) {
        Ok(id) => id,
        Err(_) => 0,
    };
    let state = know_player(w, id);
    if text::same(method, "create") {
        let made = w.alloc_instance("Landroid/media/MediaPlayer;");
        set_player(
            w,
            made,
            MediaPlayerState { prepared: true, playing: false, looping: false, position_ms: 0 },
        );
        Ok(Value::Object(made))
    } else if text::same(method, "prepare") || text::same(method, "prepareAsync") {
        set_player(w, id, MediaPlayerState { prepared: true, ..state });
        Ok(Value::Void)
    } else if text::same(method, "start") {
        set_player(w, id, MediaPlayerState { playing: true, ..state });
        Ok(Value::Void)
    } else if text::same(method, "pause") {
        set_player(w, id, MediaPlayerState { playing: false, ..state });
        Ok(Value::Void)
    } else if text::same(method, "stop") {
        set_player(w, id, MediaPlayerState { playing: false, position_ms: 0, ..state });
        Ok(Value::Void)
    } else if text::same(method, "reset") {
        set_player(w, id, MediaPlayerState::default());
        Ok(Value::Void)
    } else if text::same(method, "release") {
        remove_id(&mut w.framework.media_players, id);
        Ok(Value::Void)
    } else if text::same(method, "isPlaying") {
        Ok(truth_value(state.playing))
    } else if text::same(method, "isLooping") {
        Ok(truth_value(state.looping))
    } else if text::same(method, "setLooping") {
        let n = int_arg(args, 1)?;
        set_player(w, id, MediaPlayerState { looping: n != 0, ..state });
        Ok(Value::Void)
    } else if text::same(method, "seekTo") {
        let n = int_arg(args, 1)?;
        set_player(w, id, MediaPlayerState { position_ms: max_int(n, 0), ..state });
        Ok(Value::Void)
    } else if text::same(method, "getCurrentPosition") {
        Ok(Value::Int(state.position_ms))
    } else if text::same(method, "getDuration") {
        Ok(Value::Int(0))
    } else {
        Ok(Value::Void)
    }
}

// Files.

/// `java.io.File`.
pub open spec fn file(w: WorldView, method: Seq<char>, args: Seq<ValueView>) -> Effected {
    match convert::reference_arg(args, 0) {
        Err(e) => (w, Err(e)),
        Ok(receiver) => {
            let path = match w.field_text(receiver, "path"@) {
                Some(s) => s,
                None => Seq::empty(),
            };
            let found = table::lookup(w.framework.files, path);
            if method == "exists"@ || method == "isFile"@ {
                gives(w, activity::truth(found is Some))
            } else if method == "length"@ {
                gives(
                    w,
                    ValueView::Long(
                        match found {
                            Some(data) => data.len() as i64,
                            None => 0,
                        },
                    ),
                )
            } else if method == "delete"@ {
                gives(
                    WorldView {
                        framework: FrameworkView {
                            files: table::without(w.framework.files, path),
                            ..w.framework
                        },
                        ..w
                    },
                    activity::truth(found is Some),
                )
            } else if method == "getPath"@ || method == "getAbsolutePath"@ || method
                == "toString"@ {
                gives(w.with_object(ObjectView::String(path)), ValueView::Object(w.fresh()))
            } else {
                gives(w, ValueView::Void)
            }
        },
    }
}

pub fn call_file(w: &mut World, method: &str, args: &Vec<Value>) -> (r: Result<Value, VmError>)
    ensures
        (final(w)@, error::outcome(r)) == file(old(w)@, method@, value::views(args@)),
{
    let receiver = object_arg(args, 0)?;
    let path = match w.object_field_string(receiver, "path") {
        Some(s) => s,
        None => String::new(),
    };
    if text::same(method, "exists") || text::same(method, "isFile") {
        Ok(truth_value(get_named(&w.framework.files, path.as_str()).is_some()))
    } else if text::same(method, "length") {
        match get_named(&w.framework.files, path.as_str()) {
            Some(data) => Ok(Value::Long(data.len() as i64)),
            None => Ok(Value::Long(0)),
        }
    } else if text::same(method, "delete") {
        let removed = remove_named(&mut w.framework.files, path.as_str());
        Ok(truth_value(removed))
    } else if text::same(method, "getPath") || text::same(method, "getAbsolutePath") || text::same(
        method,
        "toString",
    ) {
        let id = w.alloc_string(path);
        Ok(Value::Object(id))
    } else {
        Ok(Value::Void)
    }
}

// `java.text.DecimalFormat`.

pub open spec fn format_question(
    method: Seq<char>,
    args: Seq<ValueView>,
    answers: Seq<AnswerView>,
) -> Option<QueryView> {
    if answers.len() == 0 && method == "format"@ && convert::reference_arg(args, 0) is Ok {
        match value::at(args, 1) {
            Some(v) => if error::is_floating(v) {
                Some(QueryView::Number { number: v, style: Style::Fixed })
            } else {
                None
            },
            None => None,
        }
    } else {
        None
    }
}

pub fn ask_format(method: &str, args: &Vec<Value>, answers: &Answers) -> (r: Option<Query>)
    ensures
        host::asked(r) == format_question(
            method@,
            value::views(args@),
            host::answers_view(answers@),
        ),
{
    if answers.len() == 0 && text::same(method, "format") && object_arg(args, 0).is_ok() {
        match value_at(args, 1) {
            Some(Value::Float(n)) => Some(
                Query::Number { number: Value::Float(*n), style: Style::Fixed },
            ),
            Some(Value::Double(n)) => Some(
                Query::Number { number: Value::Double(*n), style: Style::Fixed },
            ),
            _ => None,
        }
    } else {
        None
    }
}

pub open spec fn decimal_format(
    w: WorldView,
    method: Seq<char>,
    args: Seq<ValueView>,
    answers: Seq<AnswerView>,
) -> Effected {
    match convert::reference_arg(args, 0) {
        Err(e) => (w, Err(e)),
        Ok(receiver) => if method == "<init>"@ {
            match value::at(args, 1) {
                Some(ValueView::String(pattern)) => gives(
                    w.with_field(receiver, "pattern"@, ValueView::String(pattern)),
                    ValueView::Void,
                ),
                _ => gives(w, ValueView::Void),
            }
        } else if method == "format"@ {
            gives(
                w,
                ValueView::String(
                    match value::at(args, 1) {
                        Some(ValueView::Double(_)) => host::text_in(answers, 0),
                        Some(ValueView::Float(_)) => host::text_in(answers, 0),
                        Some(ValueView::Int(n)) => text::decimal(n as int),
                        Some(ValueView::Long(n)) => text::decimal(n as int),
                        _ => Seq::empty(),
                    },
                ),
            )
        } else {
            gives(w, ValueView::Void)
        },
    }
}

pub fn call_decimal_format(w: &mut World, method: &str, args: &Vec<Value>, answers: &Answers) -> (r:
    Result<Value, VmError>)
    ensures
        (final(w)@, error::outcome(r)) == decimal_format(
            old(w)@,
            method@,
            value::views(args@),
            host::answers_view(answers@),
        ),
{
    let receiver = object_arg(args, 0)?;
    if text::same(method, "<init>") {
        match value_at(args, 1) {
            Some(Value::String(pattern)) => w.set_object_field(
                receiver,
                "pattern",
                Value::String(pattern.clone()),
            ),
            _ => {},
        }
        Ok(Value::Void)
    } else if text::same(method, "format") {
        Ok(
            Value::String(
                match value_at(args, 1) {
                    Some(Value::Double(_)) => host::get_text(answers, 0),
                    Some(Value::Float(_)) => host::get_text(answers, 0),
                    Some(Value::Int(n)) => text::decimal_text(*n as i64),
                    Some(Value::Long(n)) => text::decimal_text(*n),
                    _ => String::new(),
                },
            ),
        )
    } else {
        Ok(Value::Void)
    }
}

// `java.util.Random`.

pub open spec fn next_state(state: i32) -> i32 {
    state.wrapping_mul(1_664_525).wrapping_add(1_013_904_223)
}

/// A linear congruential generator.
pub open spec fn random(w: WorldView, method: Seq<char>, args: Seq<ValueView>) -> Effected {
    match convert::reference_arg(args, 0) {
        Err(e) => (w, Err(e)),
        Ok(receiver) => if method == "<init>"@ {
            gives(w.with_field(receiver, "state"@, ValueView::Int(1)), ValueView::Void)
        } else if method == "nextInt"@ {
            match convert::integer_arg(args, 1) {
                Err(e) => (w, Err(e)),
                Ok(n) => {
                    let next = next_state(graphics::int_or(w.field_int(receiver, "state"@), 1));
                    gives(
                        w.with_field(receiver, "state"@, ValueView::Int(next)),
                        ValueView::Int(
                            ((next & 0x7fff_ffff) as int % float::larger(n as int, 1)) as i32,
                        ),
                    )
                },
            }
        } else {
            gives(w, ValueView::Void)
        },
    }
}

pub fn call_random(w: &mut World, method: &str, args: &Vec<Value>) -> (r: Result<Value, VmError>)
    ensures
        (final(w)@, error::outcome(r)) == random(old(w)@, method@, value::views(args@)),
{
    let receiver = object_arg(args, 0)?;
    if text::same(method, "<init>") {
        w.set_object_field(receiver, "state", Value::Int(1));
        Ok(Value::Void)
    } else if text::same(method, "nextInt") {
        let n = int_arg(args, 1)?;
        let bound = max_int(n, 1);
        let state: i32 = match w.object_field_int(receiver, "state") {
            Some(n) => n,
            None => 1,
        };
        let next = state.wrapping_mul(1_664_525).wrapping_add(1_013_904_223);
        w.set_object_field(receiver, "state", Value::Int(next));
        assert((next & 0x7fff_ffff) >= 0) by (bit_vector);
        let positive: i32 = next & 0x7fff_ffff;
        Ok(Value::Int(positive % bound))
    } else {
        Ok(Value::Void)
    }
}

} // verus!
