//! Activities, intents, views and events: what one call leaves for another.

use vstd::prelude::*;

use crate::error::ErrorView;
use crate::framework::activity;
use crate::framework::dispatch;
use crate::framework::objects;
use crate::framework::system;
use crate::host::{AnswerView, EffectView, QueryView};
use crate::laws::memory;
use crate::table;
use crate::text;
use crate::value;
use crate::value::{ObjectId, ObjectView, ValueView};
use crate::world;
use crate::world::WorldView;

verus! {

// Events.

/// These names are different.
proof fn lemma_motion_methods()
    ensures
        "getActionMasked"@ != "getAction"@,
        "getActionIndex"@ != "getAction"@,
        "getActionIndex"@ != "getActionMasked"@,
        "getX"@ != "getAction"@,
        "getX"@ != "getActionMasked"@,
        "getX"@ != "getActionIndex"@,
        "getY"@ != "getAction"@,
        "getY"@ != "getActionMasked"@,
        "getY"@ != "getActionIndex"@,
        "getY"@ != "getX"@,
{
    reveal_strlit("getAction");
    reveal_strlit("getActionMasked");
    reveal_strlit("getActionIndex");
    reveal_strlit("getX");
    reveal_strlit("getY");
    assert("getAction"@.len() == 9);
    assert("getActionMasked"@.len() == 15);
    assert("getActionIndex"@.len() == 14);
    assert("getX"@.len() == 4);
    assert("getY"@.len() == 4);
    assert("getY"@[3] == 'Y' && "getX"@[3] == 'X');
}

/// A touch event tells its action, masked and its index, and its place across and down.
pub proof fn an_event_tells_its_action_and_its_place(
    w: WorldView,
    event: ObjectId,
    action: i32,
    x: u32,
    y: u32,
)
    requires
        w.field(event, "action"@) == Some(ValueView::Int(action)),
        w.field(event, "x"@) == Some(ValueView::Float(x)),
        w.field(event, "y"@) == Some(ValueView::Float(y)),
    ensures
        ({
            let me = seq![ValueView::Object(event)];
            &&& objects::motion(w, "getAction"@, me) == Ok::<ValueView, ErrorView>(
                ValueView::Int(action),
            )
            &&& objects::motion(w, "getActionMasked"@, me) == Ok::<ValueView, ErrorView>(
                ValueView::Int(action & 0xff),
            )
            &&& objects::motion(w, "getActionIndex"@, me) == Ok::<ValueView, ErrorView>(
                ValueView::Int((action >> 8) & 0xff),
            )
            &&& objects::motion(w, "getX"@, me) == Ok::<ValueView, ErrorView>(ValueView::Float(x))
            &&& objects::motion(w, "getY"@, me) == Ok::<ValueView, ErrorView>(ValueView::Float(y))
        }),
{
    lemma_motion_methods();
    let me = seq![ValueView::Object(event)];
    assert(value::at(me, 0) == Some(ValueView::Object(event)));
}

/// This name is none of the others.
proof fn lemma_handler()
    ensures
        "Landroid/os/Handler;"@ != "Ljava/util/Timer;"@,
{
    reveal_strlit("Landroid/os/Handler;");
    assert("Landroid/os/Handler;"@.len() == 20);
    reveal_strlit("Ljava/util/Timer;");
    assert("Ljava/util/Timer;"@.len() == 17);
}

/// A timer runs the task that it is given; a handler that is sent a message handles that message.
pub proof fn a_timer_runs_its_task_and_a_handler_its_message(
    timer: ObjectId,
    task: ObjectId,
    handler: ObjectId,
    message: ValueView,
    rest: Seq<ValueView>,
)
    ensures
        ({
            let args = seq![ValueView::Object(timer), ValueView::Object(task)] + rest;
            dispatch::callback("Ljava/util/Timer;"@, "schedule"@, args) matches Some(c) && c.object
                == task && c.method == "run"@ && c.args.len() == 0 && c.value == ValueView::Void
        }),
        ({
            let args = seq![ValueView::Object(handler), message];
            dispatch::callback("Landroid/os/Handler;"@, "sendMessage"@, args) matches Some(c)
                && c.object == handler && c.method == "handleMessage"@ && c.args == seq![message]
                && c.value == ValueView::Int(1)
        }),
{
    lemma_handler();
    let args = seq![ValueView::Object(timer), ValueView::Object(task)] + rest;
    assert(value::at(args, 1) == Some(ValueView::Object(task)));
    let sent = seq![ValueView::Object(handler), message];
    assert(value::at(sent, 0) == Some(ValueView::Object(handler)));
    assert(value::at(sent, 1) == Some(message));
}

// Activities.

/// This name is none of the others.
proof fn lemma_start()
    ensures
        "startActivity"@ != "getApplicationContext"@,
        "startActivity"@ != "getResources"@,
        "startActivity"@ != "getSystemService"@,
        "startActivity"@ != "getSharedPreferences"@,
        "startActivity"@ != "registerReceiver"@,
        "startActivity"@ != "getMainLooper"@,
{
    reveal_strlit("startActivity");
    assert("startActivity"@.len() == 13);
    reveal_strlit("getApplicationContext");
    assert("getApplicationContext"@.len() == 21);
    reveal_strlit("getResources");
    assert("getResources"@.len() == 12);
    reveal_strlit("getSystemService");
    assert("getSystemService"@.len() == 16);
    reveal_strlit("getSharedPreferences");
    assert("getSharedPreferences"@.len() == 20);
    reveal_strlit("registerReceiver");
    assert("registerReceiver"@.len() == 16);
    reveal_strlit("getMainLooper");
    assert("startActivity"@[0] == 's' && "getMainLooper"@[0] == 'g');
}

/// This name is none of the others.
proof fn lemma_content()
    ensures
        "setContentView"@ != "getApplicationContext"@,
        "setContentView"@ != "getResources"@,
        "setContentView"@ != "getSystemService"@,
        "setContentView"@ != "getSharedPreferences"@,
        "setContentView"@ != "registerReceiver"@,
        "setContentView"@ != "getMainLooper"@,
        "setContentView"@ != "startActivity"@,
        "setContentView"@ != "getIntent"@,
{
    reveal_strlit("setContentView");
    assert("setContentView"@.len() == 14);
    reveal_strlit("getApplicationContext");
    assert("getApplicationContext"@.len() == 21);
    reveal_strlit("getResources");
    assert("getResources"@.len() == 12);
    reveal_strlit("getSystemService");
    assert("getSystemService"@.len() == 16);
    reveal_strlit("getSharedPreferences");
    assert("getSharedPreferences"@.len() == 20);
    reveal_strlit("registerReceiver");
    assert("registerReceiver"@.len() == 16);
    reveal_strlit("getMainLooper");
    assert("getMainLooper"@.len() == 13);
    reveal_strlit("startActivity");
    assert("startActivity"@.len() == 13);
    reveal_strlit("getIntent");
    assert("getIntent"@.len() == 9);
}

/// This name is none of the others.
proof fn lemma_find()
    ensures
        "findViewById"@ != "getApplicationContext"@,
        "findViewById"@ != "getResources"@,
        "findViewById"@ != "getSystemService"@,
        "findViewById"@ != "getSharedPreferences"@,
        "findViewById"@ != "registerReceiver"@,
        "findViewById"@ != "getMainLooper"@,
        "findViewById"@ != "startActivity"@,
        "findViewById"@ != "getIntent"@,
        "findViewById"@ != "setContentView"@,
{
    reveal_strlit("findViewById");
    assert("findViewById"@.len() == 12);
    reveal_strlit("getApplicationContext");
    assert("getApplicationContext"@.len() == 21);
    reveal_strlit("getResources");
    assert("findViewById"@[0] == 'f' && "getResources"@[0] == 'g');
    reveal_strlit("getSystemService");
    assert("getSystemService"@.len() == 16);
    reveal_strlit("getSharedPreferences");
    assert("getSharedPreferences"@.len() == 20);
    reveal_strlit("registerReceiver");
    assert("registerReceiver"@.len() == 16);
    reveal_strlit("getMainLooper");
    assert("getMainLooper"@.len() == 13);
    reveal_strlit("startActivity");
    assert("startActivity"@.len() == 13);
    reveal_strlit("getIntent");
    assert("getIntent"@.len() == 9);
    reveal_strlit("setContentView");
    assert("setContentView"@.len() == 14);
}

/// Starting an activity leaves the intent, and the component that it names, to be taken. An intent
/// that names none leaves what there was.
pub proof fn a_started_activity_is_left_to_be_taken(
    w: WorldView,
    context: ValueView,
    intent: ObjectId,
)
    ensures
        ({
            let args = seq![context, ValueView::Object(intent)];
            let (after, r) = activity::context(w, "startActivity"@, args);
            &&& r == Ok::<ValueView, ErrorView>(ValueView::Void)
            &&& after == WorldView { pending_activity: after.pending_activity, ..w }
            &&& after.pending_activity == match w.field_text(intent, "component"@) {
                Some(component) => Some((component, intent)),
                None => w.pending_activity,
            }
        }),
{
    lemma_start();
    let args = seq![context, ValueView::Object(intent)];
    assert(value::at(args, 1) == Some(ValueView::Object(intent)));
}

/// This name is none of the others.
proof fn lemma_put_extra()
    ensures
        "putExtra"@ != "<init>"@,
        "putExtra"@ != "addFlags"@,
        "putExtra"@ != "setFlags"@,
        "putExtra"@ != "addCategory"@,
        "putExtra"@ != "setAction"@,
        "putExtra"@ != "setData"@,
        "putExtra"@ != "setType"@,
        "putExtra"@ != "setPackage"@,
        "putExtra"@ != "setComponent"@,
        "putExtra"@ != "setClass"@,
        "putExtra"@ != "setClassName"@,
{
    reveal_strlit("putExtra");
    assert("putExtra"@.len() == 8);
    reveal_strlit("<init>");
    assert("<init>"@.len() == 6);
    reveal_strlit("addFlags");
    assert("putExtra"@[0] == 'p' && "addFlags"@[0] == 'a');
    reveal_strlit("setFlags");
    assert("putExtra"@[0] == 'p' && "setFlags"@[0] == 's');
    reveal_strlit("addCategory");
    assert("addCategory"@.len() == 11);
    reveal_strlit("setAction");
    assert("setAction"@.len() == 9);
    reveal_strlit("setData");
    assert("setData"@.len() == 7);
    reveal_strlit("setType");
    assert("setType"@.len() == 7);
    reveal_strlit("setPackage");
    assert("setPackage"@.len() == 10);
    reveal_strlit("setComponent");
    assert("setComponent"@.len() == 12);
    reveal_strlit("setClass");
    assert("putExtra"@[0] == 'p' && "setClass"@[0] == 's');
    reveal_strlit("setClassName");
    assert("setClassName"@.len() == 12);
}

/// An intent for a class names it as its component. A value put into an intent is in it under its
/// key, and nothing else of it changes.
pub proof fn an_intent_names_its_component_and_holds_extras(
    w: WorldView,
    intent: ObjectId,
    class: ObjectId,
    class_name: Seq<char>,
    context: ValueView,
    key: Seq<char>,
    v: ValueView,
    other: Seq<char>,
)
    requires
        w.class_of(intent) is Some,
        w.object(class) == Some(ObjectView::Class(class_name)),
        other != "extra:"@ + key,
    ensures
        ({
            let args = seq![ValueView::Object(intent), context, ValueView::Object(class)];
            let (after, r) = activity::intent(w, "<init>"@, args);
            &&& r == Ok::<ValueView, ErrorView>(ValueView::Void)
            &&& after.field_text(intent, "component"@) == Some(class_name)
        }),
        ({
            let args = seq![ValueView::Object(intent), ValueView::String(key), v];
            let (after, r) = activity::intent(w, "putExtra"@, args);
            &&& r == Ok::<ValueView, ErrorView>(ValueView::Object(intent))
            &&& after.field(intent, "extra:"@ + key) == Some(v)
            &&& after.field(intent, other) == w.field(intent, other)
        }),
{
    lemma_put_extra();
    let args = seq![ValueView::Object(intent), context, ValueView::Object(class)];
    assert(value::at(args, 0) == Some(ValueView::Object(intent)));
    assert(args.last() == ValueView::Object(class));
    let named = ValueView::String(class_name);
    memory::a_field_holds_what_is_set(w, intent, "component"@, named, "component"@, intent);
    let put = seq![ValueView::Object(intent), ValueView::String(key), v];
    assert(value::at(put, 0) == Some(ValueView::Object(intent)));
    assert(value::at(put, 1) == Some(ValueView::String(key)));
    assert(value::at(put, 2) == Some(v));
    memory::a_field_holds_what_is_set(w, intent, "extra:"@ + key, v, other, intent);
}

/// The content view of an activity is the one that was set for it last; those of other activities
/// stay as they are.
pub proof fn a_content_view_is_the_one_set_last(
    w: WorldView,
    shown: ObjectId,
    view: ObjectId,
    other: ObjectId,
)
    ensures
        ({
            let args = seq![ValueView::Object(shown), ValueView::Object(view)];
            let (after, r) = activity::context(w, "setContentView"@, args);
            &&& r == Ok::<ValueView, ErrorView>(ValueView::Void)
            &&& table::lookup(after.framework.content_views, shown) == Some(view)
            &&& other != shown ==> table::lookup(after.framework.content_views, other)
                == table::lookup(w.framework.content_views, other)
            &&& after.heap == w.heap
        }),
{
    lemma_content();
    let args = seq![ValueView::Object(shown), ValueView::Object(view)];
    assert(value::at(args, 0) == Some(ValueView::Object(shown)));
    assert(value::at(args, 1) == Some(ValueView::Object(view)));
    table::store_then_lookup(w.framework.content_views, shown, view, other);
}

/// A view that is looked for is a new one with that id, which the surroundings are told of, and
/// which says the id.
pub proof fn a_view_that_is_found_has_its_id(w: WorldView, context: ValueView, id: i32)
    requires
        w.heap.len() < u32::MAX,
    ensures
        ({
            let args = seq![context, ValueView::Int(id)];
            let (after, r) = activity::context(w, "findViewById"@, args);
            let view = w.heap.len() as ObjectId;
            &&& r == Ok::<ValueView, ErrorView>(ValueView::Object(view))
            &&& after.heap.len() == w.heap.len() + 1
            &&& after.field(view, "view_id"@) == Some(ValueView::Int(id))
            &&& after.effects.last() == (EffectView::SetViewId { view, id })
            &&& after.effects.len() == w.effects.len() + 2
            &&& 2131165186 <= id <= 2131165189 ==> after.class_of(view) == Some(
                "Landroid/widget/Button;"@,
            )
            &&& objects::view_call(
                after,
                "getId"@,
                seq![ValueView::Object(view)],
                Seq::empty(),
            ) == (after, Ok::<ValueView, ErrorView>(ValueView::Int(id)))
        }),
{
    lemma_find();
    reveal_strlit("getId");
    reveal_strlit("setOnTouchListener");
    reveal_strlit("setOnClickListener");
    assert("getId"@.len() == 5 && "setOnTouchListener"@.len() == 18);
    assert("setOnClickListener"@.len() == 18);
    let args = seq![context, ValueView::Int(id)];
    assert(value::at(args, 1) == Some(ValueView::Int(id)));
    let view = w.fresh();
    let class_name = activity::found_class(id);
    let made = w.with_object(world::instance_of(class_name));
    assert(made.class_of(view) == Some(class_name));
    let named = ValueView::Int(id);
    memory::a_field_holds_what_is_set(made, view, "view_id"@, named, "view_id"@, view);
    let me = seq![ValueView::Object(view)];
    assert(value::at(me, 0) == Some(ValueView::Object(view)));
    let (after, r) = activity::context(w, "findViewById"@, args);
    assert(after.object(view) == made.with_field(view, "view_id"@, named).object(view));
    assert(after.field_int(view, "view_id"@) == Some(id));
}

/// A view is as large as the surface, and at least one wide and high.
pub proof fn a_view_is_as_large_as_the_surface(
    w: WorldView,
    args: Seq<ValueView>,
    answers: Seq<AnswerView>,
)
    ensures
        objects::view_call(w, "getWidth"@, args, answers) == (
            w,
            Ok::<ValueView, ErrorView>(
                ValueView::Int(
                    if w.framework.surface_size.0 < 1 {
                        1
                    } else {
                        w.framework.surface_size.0
                    },
                ),
            ),
        ),
        objects::view_call(w, "getHeight"@, args, answers) == (
            w,
            Ok::<ValueView, ErrorView>(
                ValueView::Int(
                    if w.framework.surface_size.1 < 1 {
                        1
                    } else {
                        w.framework.surface_size.1
                    },
                ),
            ),
        ),
{
    lemma_view_methods();
}

/// These names are different.
proof fn lemma_view_methods()
    ensures
        "setOnClickListener"@ != "setOnTouchListener"@,
        "getId"@ != "setOnTouchListener"@,
        "getId"@ != "setOnClickListener"@,
        "getWidth"@ != "setOnTouchListener"@,
        "getWidth"@ != "setOnClickListener"@,
        "getWidth"@ != "getId"@,
        "getHeight"@ != "setOnTouchListener"@,
        "getHeight"@ != "setOnClickListener"@,
        "getHeight"@ != "getId"@,
        "getHeight"@ != "getWidth"@,
        "addView"@ != "setOnTouchListener"@,
        "addView"@ != "setOnClickListener"@,
        "addView"@ != "getId"@,
        "addView"@ != "getWidth"@,
        "addView"@ != "getHeight"@,
{
    reveal_strlit("setOnTouchListener");
    reveal_strlit("setOnClickListener");
    reveal_strlit("getId");
    reveal_strlit("getWidth");
    reveal_strlit("getHeight");
    reveal_strlit("addView");
    assert("setOnTouchListener"@.len() == 18);
    assert("setOnClickListener"@.len() == 18);
    assert("getId"@.len() == 5);
    assert("getWidth"@.len() == 8);
    assert("getHeight"@.len() == 9);
    assert("addView"@.len() == 7);
    assert("setOnClickListener"@[5] == 'C' && "setOnTouchListener"@[5] == 'T');
}

/// A view that is added to another is its child, once the surroundings know both.
pub proof fn an_added_view_is_a_child(
    w: WorldView,
    parent: ObjectId,
    child: ObjectId,
    answers: Seq<AnswerView>,
)
    ensures
        ({
            let args = seq![ValueView::Object(parent), ValueView::Object(child)];
            let (after, r) = objects::view_call(w, "addView"@, args, answers);
            &&& r == Ok::<ValueView, ErrorView>(ValueView::Void)
            &&& after.effects.len() == w.effects.len() + 3
            &&& after.effects.last() == (EffectView::AddChild { parent, child })
            &&& after.effects[w.effects.len() as int] matches EffectView::EnsureView { view, .. }
                && view == parent
            &&& after.effects[w.effects.len() as int + 1] matches EffectView::EnsureView {
                view,
                ..
            } && view == child
        }),
{
    lemma_view_methods();
    let args = seq![ValueView::Object(parent), ValueView::Object(child)];
    assert(value::at(args, 0) == Some(ValueView::Object(parent)));
    assert(value::at(args, 1) == Some(ValueView::Object(child)));
}

/// A listener is the one that was set for a view last, for touches and for clicks apart from each
/// other, and no other view's changes.
pub proof fn a_listener_is_the_one_set_last(
    w: WorldView,
    view: ObjectId,
    listener: ObjectId,
    other: ObjectId,
    answers: Seq<AnswerView>,
)
    ensures
        ({
            let args = seq![ValueView::Object(view), ValueView::Object(listener)];
            let touched = objects::view_call(w, "setOnTouchListener"@, args, answers).0;
            let clicked = objects::view_call(w, "setOnClickListener"@, args, answers).0;
            &&& table::lookup(touched.touch_listeners, view) == Some(listener)
            &&& touched.click_listeners == w.click_listeners
            &&& table::lookup(clicked.click_listeners, view) == Some(listener)
            &&& clicked.touch_listeners == w.touch_listeners
            &&& other != view ==> table::lookup(touched.touch_listeners, other) == table::lookup(
                w.touch_listeners,
                other,
            ) && table::lookup(clicked.click_listeners, other) == table::lookup(
                w.click_listeners,
                other,
            )
        }),
{
    lemma_view_methods();
    let args = seq![ValueView::Object(view), ValueView::Object(listener)];
    assert(value::at(args, 0) == Some(ValueView::Object(view)));
    assert(value::at(args, 1) == Some(ValueView::Object(listener)));
    table::store_then_lookup(w.touch_listeners, view, listener, other);
    table::store_then_lookup(w.click_listeners, view, listener, other);
}

// Resources and services.

/// These names are different.
proof fn lemma_resource_methods()
    ensures
        "getStringArray"@ != "getDisplayMetrics"@,
        "getString"@ != "getDisplayMetrics"@,
        "getString"@ != "getStringArray"@,
{
    reveal_strlit("getDisplayMetrics");
    reveal_strlit("getStringArray");
    reveal_strlit("getString");
    assert("getDisplayMetrics"@.len() == 17);
    assert("getStringArray"@.len() == 14);
    assert("getString"@.len() == 9);
}

/// A string resource is the text under its number; there is none where it is not known.
pub proof fn a_string_resource_is_the_text_of_its_number(
    w: WorldView,
    receiver: ValueView,
    id: i32,
)
    requires
        id >= 0,
    ensures
        ({
            let args = seq![receiver, ValueView::Int(id)];
            activity::resources(w, "getString"@, args) == (
                w,
                Ok::<ValueView, ErrorView>(
                    ValueView::String(
                        match table::lookup(w.framework.resource_strings, id as u32) {
                            Some(s) => s,
                            None => Seq::empty(),
                        },
                    ),
                ),
            )
        }),
{
    lemma_resource_methods();
    let args = seq![receiver, ValueView::Int(id)];
    assert(value::at(args, 1) == Some(ValueView::Int(id)));
}

/// These names are different.
proof fn lemma_service_names()
    ensures
        "vibrator"@ != "sensor"@,
        "audio"@ != "sensor"@,
        "audio"@ != "vibrator"@,
{
    reveal_strlit("sensor");
    reveal_strlit("vibrator");
    reveal_strlit("audio");
    assert("sensor"@.len() == 6);
    assert("vibrator"@.len() == 8);
    assert("audio"@.len() == 5);
}

/// A system service is of the class that its name stands for.
pub proof fn a_service_is_of_its_class(w: WorldView, context: ValueView)
    requires
        w.heap.len() <= u32::MAX,
        w.framework.system_services.len() == 0,
    ensures
        ({
            let asked = |name: Seq<char>|
                activity::get_service(w, seq![context, ValueView::String(name)]).0.class_of(
                    w.heap.len() as ObjectId,
                );
            &&& asked("sensor"@) == Some("Landroid/hardware/SensorManager;"@)
            &&& asked("vibrator"@) == Some("Landroid/os/Vibrator;"@)
            &&& asked("audio"@) == Some("Landroid/media/AudioManager;"@)
        }),
{
    lemma_service_names();
    let sensor = seq![context, ValueView::String("sensor"@)];
    let vibrator = seq![context, ValueView::String("vibrator"@)];
    let audio = seq![context, ValueView::String("audio"@)];
    assert(value::at(sensor, 1) == Some(ValueView::String("sensor"@)));
    assert(value::at(vibrator, 1) == Some(ValueView::String("vibrator"@)));
    assert(value::at(audio, 1) == Some(ValueView::String("audio"@)));
}

/// These names are different.
proof fn lemma_preference_methods()
    ensures
        "getInt"@ != "getBoolean"@,
        "getLong"@ != "getBoolean"@,
        "getLong"@ != "getInt"@,
        "getFloat"@ != "getBoolean"@,
        "getFloat"@ != "getInt"@,
        "getFloat"@ != "getLong"@,
        "getString"@ != "getBoolean"@,
        "getString"@ != "getInt"@,
        "getString"@ != "getLong"@,
        "getString"@ != "getFloat"@,
        "edit"@ != "getBoolean"@,
        "edit"@ != "getInt"@,
        "edit"@ != "getLong"@,
        "edit"@ != "getFloat"@,
        "edit"@ != "getString"@,
{
    reveal_strlit("getBoolean");
    reveal_strlit("getInt");
    reveal_strlit("getLong");
    reveal_strlit("getFloat");
    reveal_strlit("getString");
    reveal_strlit("edit");
    assert("getBoolean"@.len() == 10);
    assert("getInt"@.len() == 6);
    assert("getLong"@.len() == 7);
    assert("getFloat"@.len() == 8);
    assert("getString"@.len() == 9);
    assert("edit"@.len() == 4);
}

/// A preference that was never stored is read as the value that is given for that case.
pub proof fn a_missing_preference_is_the_default(
    w: WorldView,
    prefs: ObjectId,
    key: Seq<char>,
    n: i32,
    s: Seq<char>,
    answers: Seq<AnswerView>,
)
    requires
        table::lookup(
            w.framework.preferences,
            (activity::preferences_name(w, prefs), key),
        ) is None,
    ensures
        ({
            let with = |v: ValueView| seq![ValueView::Object(prefs), ValueView::String(key), v];
            let read = |method: Seq<char>, v: ValueView|
                activity::preferences(w, method, with(v), answers);
            &&& read("getInt"@, ValueView::Int(n)) == (
                w,
                Ok::<ValueView, ErrorView>(ValueView::Int(n)),
            )
            &&& read("getLong"@, ValueView::Int(n)) == (
                w,
                Ok::<ValueView, ErrorView>(ValueView::Long(n as i64)),
            )
            &&& read("getBoolean"@, ValueView::Int(n)) == (
                w,
                Ok::<ValueView, ErrorView>(
                    ValueView::Int(
                        if n != 0 {
                            1
                        } else {
                            0
                        },
                    ),
                ),
            )
            &&& read("getString"@, ValueView::String(s)) == (
                w,
                Ok::<ValueView, ErrorView>(ValueView::String(s)),
            )
        }),
{
    lemma_preference_methods();
    let number = seq![ValueView::Object(prefs), ValueView::String(key), ValueView::Int(n)];
    let words = seq![ValueView::Object(prefs), ValueView::String(key), ValueView::String(s)];
    assert(value::at(number, 0) == Some(ValueView::Object(prefs)));
    assert(value::at(number, 1) == Some(ValueView::String(key)));
    assert(value::at(number, 2) == Some(ValueView::Int(n)));
    assert(value::at(words, 0) == Some(ValueView::Object(prefs)));
    assert(value::at(words, 1) == Some(ValueView::String(key)));
    assert(value::at(words, 2) == Some(ValueView::String(s)));
}

// Logs and time.

/// These names are different.
proof fn lemma_log_methods()
    ensures
        "d"@ != "v"@,
        "i"@ != "v"@,
        "i"@ != "d"@,
        "w"@ != "v"@,
        "w"@ != "d"@,
        "w"@ != "i"@,
        "e"@ != "v"@,
        "e"@ != "d"@,
        "e"@ != "i"@,
        "e"@ != "w"@,
        "wtf"@ != "v"@,
        "wtf"@ != "d"@,
        "wtf"@ != "i"@,
        "wtf"@ != "w"@,
        "wtf"@ != "e"@,
        "getStackTraceString"@ != "v"@,
        "getStackTraceString"@ != "d"@,
        "getStackTraceString"@ != "i"@,
        "getStackTraceString"@ != "w"@,
        "getStackTraceString"@ != "e"@,
        "getStackTraceString"@ != "wtf"@,
{
    reveal_strlit("v");
    reveal_strlit("d");
    reveal_strlit("i");
    reveal_strlit("w");
    reveal_strlit("e");
    reveal_strlit("wtf");
    reveal_strlit("getStackTraceString");
    assert("v"@.len() == 1);
    assert("d"@.len() == 1);
    assert("i"@.len() == 1);
    assert("w"@.len() == 1);
    assert("e"@.len() == 1);
    assert("wtf"@.len() == 3);
    assert("getStackTraceString"@.len() == 19);
    assert("d"@[0] == 'd' && "v"@[0] == 'v');
    assert("i"@[0] == 'i' && "v"@[0] == 'v');
    assert("i"@[0] == 'i' && "d"@[0] == 'd');
    assert("w"@[0] == 'w' && "v"@[0] == 'v');
    assert("w"@[0] == 'w' && "d"@[0] == 'd');
    assert("w"@[0] == 'w' && "i"@[0] == 'i');
    assert("e"@[0] == 'e' && "v"@[0] == 'v');
    assert("e"@[0] == 'e' && "d"@[0] == 'd');
    assert("e"@[0] == 'e' && "i"@[0] == 'i');
    assert("e"@[0] == 'e' && "w"@[0] == 'w');
}

/// A logged message stands at the end of the log, behind its level.
pub proof fn a_message_is_logged_behind_its_level(
    w: WorldView,
    level: Seq<char>,
    tag: ValueView,
    message: Seq<char>,
)
    requires
        level == "v"@ || level == "d"@ || level == "i"@ || level == "w"@ || level == "e"@ || level
            == "wtf"@,
    ensures
        ({
            let args = seq![tag, ValueView::String(message)];
            let (after, r) = system::log(w, level, args);
            &&& r == Ok::<ValueView, ErrorView>(ValueView::Int(0))
            &&& after.framework.logs == w.framework.logs.push("Log/"@ + level + ": "@ + message)
            &&& after.heap == w.heap
        }),
{
    lemma_log_methods();
    let args = seq![tag, ValueView::String(message)];
    assert(system::first_string(args, 1) == message);
}

/// These names are different.
proof fn lemma_thread_methods()
    ensures
        "currentThread"@ != "sleep"@,
        "getPriority"@ != "sleep"@,
        "getPriority"@ != "currentThread"@,
{
    reveal_strlit("sleep");
    reveal_strlit("currentThread");
    reveal_strlit("getPriority");
    assert("sleep"@.len() == 5);
    assert("currentThread"@.len() == 13);
    assert("getPriority"@.len() == 11);
}

/// Sleeping lasts as long as asked for, but at least a millisecond while a frame is rendered, and
/// not at all for a negative time.
pub proof fn sleeping_lasts_as_long_as_asked(w: WorldView, ms: i32)
    ensures
        ({
            let (after, r) = system::thread(w, "sleep"@, seq![ValueView::Int(ms)]);
            &&& r == Ok::<ValueView, ErrorView>(ValueView::Void)
            &&& ms < 0 ==> after == w
            &&& ms >= 0 ==> after == WorldView {
                effects: w.effects.push(
                    EffectView::Sleep(
                        if ms == 0 && w.frame_mode {
                            1
                        } else {
                            ms as u64
                        },
                    ),
                ),
                ..w
            }
        }),
{
    lemma_thread_methods();
    assert(value::at(seq![ValueView::Int(ms)], 0) == Some(ValueView::Int(ms)));
}

/// The time is asked of the surroundings and given as they answer it.
pub proof fn the_time_is_the_one_that_is_answered(w: WorldView, args: Seq<ValueView>, n: u64)
    requires
        n <= i64::MAX,
    ensures
        system::clock_question(Seq::empty()) == Some(QueryView::Nanoseconds),
        system::system(w, "nanoTime"@, args, seq![AnswerView::Nanoseconds(n)]) == (
            w,
            Ok::<ValueView, ErrorView>(ValueView::Long(n as i64)),
        ),
{
}

// Boxes.

/// These names are different.
proof fn lemma_box_methods()
    ensures
        "intValue"@ != "valueOf"@,
        "longValue"@ != "valueOf"@,
        "longValue"@ != "intValue"@,
        "floatValue"@ != "valueOf"@,
        "floatValue"@ != "intValue"@,
        "floatValue"@ != "longValue"@,
        "doubleValue"@ != "valueOf"@,
        "doubleValue"@ != "intValue"@,
        "doubleValue"@ != "longValue"@,
        "doubleValue"@ != "floatValue"@,
        "booleanValue"@ != "valueOf"@,
        "booleanValue"@ != "intValue"@,
        "booleanValue"@ != "longValue"@,
        "booleanValue"@ != "floatValue"@,
        "booleanValue"@ != "doubleValue"@,
        "toString"@ != "valueOf"@,
        "toString"@ != "intValue"@,
        "toString"@ != "longValue"@,
        "toString"@ != "floatValue"@,
        "toString"@ != "doubleValue"@,
        "toString"@ != "booleanValue"@,
{
    reveal_strlit("valueOf");
    reveal_strlit("intValue");
    reveal_strlit("longValue");
    reveal_strlit("floatValue");
    reveal_strlit("doubleValue");
    reveal_strlit("booleanValue");
    reveal_strlit("toString");
    assert("valueOf"@.len() == 7);
    assert("intValue"@.len() == 8);
    assert("longValue"@.len() == 9);
    assert("floatValue"@.len() == 10);
    assert("doubleValue"@.len() == 11);
    assert("booleanValue"@.len() == 12);
    assert("toString"@.len() == 8);
    assert("toString"@[0] == 't' && "intValue"@[0] == 'i');
}

/// What is boxed is unboxed again, and is true where it is not zero.
pub proof fn a_boxed_number_is_unboxed(
    w: WorldView,
    n: i32,
    answers: Seq<AnswerView>,
)
    requires
        w.heap.len() <= u32::MAX,
    ensures
        ({
            let (boxed, r) = crate::framework::strings::boxes(
                w,
                "valueOf"@,
                seq![ValueView::Int(n)],
                answers,
            );
            let id = w.heap.len() as ObjectId;
            let me = seq![ValueView::Object(id)];
            let read = |method: Seq<char>|
                crate::framework::strings::boxes(boxed, method, me, answers);
            &&& r == Ok::<ValueView, ErrorView>(ValueView::Object(id))
            &&& read("intValue"@) == (boxed, Ok::<ValueView, ErrorView>(ValueView::Int(n)))
            &&& read("longValue"@) == (
                boxed,
                Ok::<ValueView, ErrorView>(ValueView::Long(n as i64)),
            )
            &&& read("booleanValue"@) == (
                boxed,
                Ok::<ValueView, ErrorView>(
                    ValueView::Int(
                        if n != 0 {
                            1
                        } else {
                            0
                        },
                    ),
                ),
            )
            &&& crate::laws::texts::gives_string(boxed, read("toString"@), text::decimal(n as int))
        }),
{
    lemma_box_methods();
    assert(value::at(seq![ValueView::Int(n)], 0) == Some(ValueView::Int(n)));
    let id = w.fresh();
    let me = seq![ValueView::Object(id)];
    assert(value::at(me, 0) == Some(ValueView::Object(id)));
    let boxed = w.with_object(ObjectView::Boxed(ValueView::Int(n)));
    assert(boxed.heap.push(ObjectView::String(text::decimal(n as int))).drop_last()
        =~= boxed.heap);
}

// Classes by name.

/// A class is found by its name with stops as by its descriptor.
pub proof fn a_class_is_named_with_stops_or_slashes(name: Seq<char>)
    requires
        !(text::starts(name, "L"@) && text::ends(name, ";"@)),
    ensures
        ({
            let d = objects::descriptor_for(name);
            &&& d.len() == name.len() + 2
            &&& d[0] == 'L'
            &&& d.last() == ';'
            &&& forall|i: int|
                0 <= i < name.len() ==> #[trigger] d[i + 1] == if name[i] == '.' {
                    '/'
                } else {
                    name[i]
                }
        }),
        objects::descriptor_for(objects::descriptor_for(name)) == objects::descriptor_for(name),
{
    reveal_strlit("L");
    reveal_strlit(";");
    let d = objects::descriptor_for(name);
    assert("L"@.len() == 1 && ";"@.len() == 1 && "L"@[0] == 'L' && ";"@[0] == ';');
    assert(d.subrange(0, 1) =~= "L"@);
    assert(d.subrange(d.len() - 1, d.len() as int) =~= ";"@);
}

} // verus!
