//! Activities, intents, bundles and preferences.

use vstd::prelude::*;

use crate::convert;
use crate::convert::{float_arg, int_arg, object_arg};
use crate::error;
use crate::error::VmError;
use crate::framework::system;
use crate::framework::system::{gives, make, make_string_array, makes};
use crate::host;
use crate::host::{AnswerView, Answers, Effect, EffectView, Query, QueryView, Style};
use crate::table;
use crate::table::{get_named, put_id, put_named};
use crate::text;
use crate::value;
use crate::value::{value_at, ObjectId, Value, ValueView};
use crate::world;
use crate::world::{find_numbered, Effected, FrameworkView, World, WorldView};

verus! {

// `android.content.Intent`.

/// The class that the last of the arguments that names one names.
pub open spec fn last_class(w: WorldView, args: Seq<ValueView>) -> Option<Seq<char>>
    decreases args.len(),
{
    if args.len() == 0 {
        None
    } else {
        match w.class_named(Some(args.last())) {
            Some(name) => Some(name),
            None => last_class(w, args.drop_last()),
        }
    }
}

fn find_last_class(w: &World, args: &Vec<Value>) -> (r: Option<String>)
    ensures
        world::some_string(r) == last_class(w@, value::views(args@)),
{
    let ghost all = value::views(args@);
    let mut i: usize = args.len();
    assert(all.take(i as int) =~= all);
    while i > 0
        invariant
            i <= args.len(),
            all == value::views(args@),
            last_class(w@, all) == last_class(w@, all.take(i as int)),
        decreases i,
    {
        assert(all.take(i as int).last() == args[i as int - 1]@);
        assert(all.take(i as int).drop_last() =~= all.take(i as int - 1));
        match w.class_name_from_value(Some(&args[i - 1])) {
            Some(name) => {
                return Some(name);
            },
            None => {},
        }
        i -= 1;
    }
    None
}

pub open spec fn extra_key(key: Seq<char>) -> Seq<char> {
    "extra:"@ + key
}

/// The object in a field, or a new one of a class.
pub open spec fn field_or_new(w: WorldView, id: ObjectId, name: Seq<char>, class_name: Seq<char>) -> (
    WorldView,
    ObjectId,
) {
    match w.field_object(id, name) {
        Some(found) => (w, found),
        None => (w.with_object(world::instance_of(class_name)), w.fresh()),
    }
}

fn get_field_or_new(w: &mut World, id: ObjectId, name: &str, class_name: &str) -> (r: ObjectId)
    ensures
        (final(w)@, r) == field_or_new(old(w)@, id, name@, class_name@),
{
    match w.object_field_object(id, name) {
        Some(found) => found,
        None => w.alloc_instance(class_name),
    }
}

/// Starting an activity leaves its intent to be taken.
pub open spec fn start_activity(w: WorldView, args: Seq<ValueView>) -> Effected {
    match convert::reference_arg(args, 1) {
        Err(e) => (w, Err(e)),
        Ok(intent) => match w.field_text(intent, "component"@) {
            Some(component) => gives(
                WorldView { pending_activity: Some((component, intent)), ..w },
                ValueView::Void,
            ),
            None => gives(w, ValueView::Void),
        },
    }
}

fn call_start_activity(w: &mut World, args: &Vec<Value>) -> (r: Result<Value, VmError>)
    ensures
        (final(w)@, error::outcome(r)) == start_activity(old(w)@, value::views(args@)),
{
    let intent = object_arg(args, 1)?;
    match w.object_field_string(intent, "component") {
        Some(component) => {
            w.pending_activity = Some((component, intent));
        },
        None => {},
    }
    Ok(Value::Void)
}

pub open spec fn fluent(method: Seq<char>) -> bool {
    method == "addCategory"@ || method == "setAction"@ || method == "setData"@ || method
        == "setType"@ || method == "setPackage"@ || method == "setComponent"@ || method
        == "setClass"@ || method == "setClassName"@
}

fn is_fluent(method: &str) -> (r: bool)
    ensures
        r == fluent(method@),
{
    text::same(method, "addCategory") || text::same(method, "setAction") || text::same(
        method,
        "setData",
    ) || text::same(method, "setType") || text::same(method, "setPackage") || text::same(
        method,
        "setComponent",
    ) || text::same(method, "setClass") || text::same(method, "setClassName")
}

pub open spec fn named_component(w: WorldView, id: ObjectId, name: Option<Seq<char>>) -> WorldView {
    match name {
        Some(s) => w.with_field(id, "component"@, ValueView::String(s)),
        None => w,
    }
}

pub open spec fn or_zero(v: Option<i32>) -> i32 {
    match v {
        Some(n) => n,
        None => 0,
    }
}

pub open spec fn intent(w: WorldView, method: Seq<char>, args: Seq<ValueView>) -> Effected {
    match convert::reference_arg(args, 0) {
        Err(e) => (w, Err(e)),
        Ok(receiver) => if method == "<init>"@ {
            gives(named_component(w, receiver, last_class(w, args)), ValueView::Void)
        } else if method == "addFlags"@ || method == "setFlags"@ {
            match convert::integer_arg(args, 1) {
                Err(e) => (w, Err(e)),
                Ok(flags) => {
                    let value = if method == "addFlags"@ {
                        or_zero(w.field_int(receiver, "flags"@)) | flags
                    } else {
                        flags
                    };
                    gives(
                        w.with_field(receiver, "flags"@, ValueView::Int(value)),
                        ValueView::Object(receiver),
                    )
                },
            }
        } else if fluent(method) {
            if method == "setClass"@ && args.len() > 2 {
                gives(
                    named_component(w, receiver, w.class_named(value::at(args, 2))),
                    ValueView::Object(receiver),
                )
            } else {
                gives(w, ValueView::Object(receiver))
            }
        } else if method == "putExtra"@ {
            match (w.text_arg(value::at(args, 1), 1), value::at(args, 2)) {
                (Ok(key), Some(v)) => gives(
                    w.with_field(receiver, extra_key(key), v),
                    ValueView::Object(receiver),
                ),
                _ => gives(w, ValueView::Object(receiver)),
            }
        } else if method == "getFlags"@ {
            gives(w, ValueView::Int(or_zero(w.field_int(receiver, "flags"@))))
        } else if method == "getExtras"@ {
            let (after, extras) = field_or_new(w, receiver, "extras"@, "Landroid/os/Bundle;"@);
            gives(
                after.with_field(receiver, "extras"@, ValueView::Object(extras)),
                ValueView::Object(extras),
            )
        } else if method == "startActivity"@ {
            start_activity(w, args)
        } else {
            gives(w, ValueView::Void)
        },
    }
}

pub fn call_intent(w: &mut World, method: &str, args: &Vec<Value>) -> (r: Result<Value, VmError>)
    ensures
        (final(w)@, error::outcome(r)) == intent(old(w)@, method@, value::views(args@)),
{
    let receiver = object_arg(args, 0)?;
    if text::same(method, "<init>") {
        match find_last_class(w, args) {
            Some(name) => w.set_object_field(receiver, "component", Value::String(name)),
            None => {},
        }
        Ok(Value::Void)
    } else if text::same(method, "addFlags") || text::same(method, "setFlags") {
        let flags = int_arg(args, 1)?;
        let value: i32 = if text::same(method, "addFlags") {
            let before: i32 = match w.object_field_int(receiver, "flags") {
                Some(n) => n,
                None => 0,
            };
            before | flags
        } else {
            flags
        };
        w.set_object_field(receiver, "flags", Value::Int(value));
        Ok(Value::Object(receiver))
    } else if is_fluent(method) {
        if text::same(method, "setClass") && args.len() > 2 {
            match w.class_name_from_value(value_at(args, 2)) {
                Some(name) => w.set_object_field(receiver, "component", Value::String(name)),
                None => {},
            }
        }
        Ok(Value::Object(receiver))
    } else if text::same(method, "putExtra") {
        match (w.string_arg(args, 1), value_at(args, 2)) {
            (Ok(key), Some(v)) => {
                let name = text::join("extra:", key.as_str());
                w.set_object_field(receiver, name.as_str(), v.clone());
            },
            _ => {},
        }
        Ok(Value::Object(receiver))
    } else if text::same(method, "getFlags") {
        let flags: i32 = match w.object_field_int(receiver, "flags") {
            Some(n) => n,
            None => 0,
        };
        Ok(Value::Int(flags))
    } else if text::same(method, "getExtras") {
        let extras = get_field_or_new(w, receiver, "extras", "Landroid/os/Bundle;");
        w.set_object_field(receiver, "extras", Value::Object(extras));
        Ok(Value::Object(extras))
    } else if text::same(method, "startActivity") {
        call_start_activity(w, args)
    } else {
        Ok(Value::Void)
    }
}

// `android.os.Bundle`.

pub open spec fn puts(method: Seq<char>) -> bool {
    method == "putInt"@ || method == "putBoolean"@ || method == "putLong"@ || method
        == "putFloat"@ || method == "putString"@
}

fn is_put(method: &str) -> (r: bool)
    ensures
        r == puts(method@),
{
    text::same(method, "putInt") || text::same(method, "putBoolean") || text::same(
        method,
        "putLong",
    ) || text::same(method, "putFloat") || text::same(method, "putString")
}

pub open spec fn bundle(w: WorldView, method: Seq<char>, args: Seq<ValueView>) -> Effected {
    match convert::reference_arg(args, 0) {
        Err(e) => (w, Err(e)),
        Ok(receiver) => {
            let key = extra_key(w.text_at(args, 1));
            let found = w.field_int(receiver, key);
            if puts(method) {
                match value::at(args, 2) {
                    Some(v) => gives(w.with_field(receiver, key, v), ValueView::Void),
                    None => gives(w, ValueView::Void),
                }
            } else if method == "getInt"@ || method == "getBoolean"@ {
                match found {
                    Some(n) => gives(w, ValueView::Int(n)),
                    None => match convert::integer_arg(args, 2) {
                        Ok(n) => gives(w, ValueView::Int(n)),
                        Err(_) => gives(w, ValueView::Int(0)),
                    },
                }
            } else if method == "containsKey"@ {
                gives(
                    w,
                    ValueView::Int(
                        if found is Some {
                            1
                        } else {
                            0
                        },
                    ),
                )
            } else {
                gives(w, ValueView::Void)
            }
        },
    }
}

pub fn call_bundle(w: &mut World, method: &str, args: &Vec<Value>) -> (r: Result<Value, VmError>)
    ensures
        (final(w)@, error::outcome(r)) == bundle(old(w)@, method@, value::views(args@)),
{
    let receiver = object_arg(args, 0)?;
    let key = text::join("extra:", w.string_or_empty(args, 1).as_str());
    if is_put(method) {
        match value_at(args, 2) {
            Some(v) => w.set_object_field(receiver, key.as_str(), v.clone()),
            None => {},
        }
        Ok(Value::Void)
    } else if text::same(method, "getInt") || text::same(method, "getBoolean") {
        match w.object_field_int(receiver, key.as_str()) {
            Some(n) => Ok(Value::Int(n)),
            None => match int_arg(args, 2) {
                Ok(n) => Ok(Value::Int(n)),
                Err(_) => Ok(Value::Int(0)),
            },
        }
    } else if text::same(method, "containsKey") {
        if w.object_field_int(receiver, key.as_str()).is_some() {
            Ok(Value::Int(1))
        } else {
            Ok(Value::Int(0))
        }
    } else {
        Ok(Value::Void)
    }
}

// `android.content.Context` and the activities.

pub open spec fn service_class(name: Seq<char>) -> Seq<char> {
    if name == "sensor"@ {
        "Landroid/hardware/SensorManager;"@
    } else if name == "vibrator"@ {
        "Landroid/os/Vibrator;"@
    } else if name == "audio"@ {
        "Landroid/media/AudioManager;"@
    } else {
        "Landroid/content/Context;"@
    }
}

/// A service is made once for each name.
pub open spec fn get_service(w: WorldView, args: Seq<ValueView>) -> Effected {
    let name = w.text_at(args, 1);
    match table::lookup(w.framework.system_services, name) {
        Some(id) => gives(w, ValueView::Object(id)),
        None => {
            let after = w.with_object(world::instance_of(service_class(name)));
            gives(
                WorldView {
                    framework: FrameworkView {
                        system_services: table::store(
                            w.framework.system_services,
                            name,
                            w.fresh(),
                        ),
                        ..w.framework
                    },
                    ..after
                },
                ValueView::Object(w.fresh()),
            )
        },
    }
}

fn call_get_service(w: &mut World, args: &Vec<Value>) -> (r: Result<Value, VmError>)
    ensures
        (final(w)@, error::outcome(r)) == get_service(old(w)@, value::views(args@)),
{
    let name = w.string_or_empty(args, 1);
    let known = match get_named(&w.framework.system_services, name.as_str()) {
        Some(id) => Some(*id),
        None => None,
    };
    match known {
        Some(id) => Ok(Value::Object(id)),
        None => {
            let class_name = if text::same(name.as_str(), "sensor") {
                "Landroid/hardware/SensorManager;"
            } else if text::same(name.as_str(), "vibrator") {
                "Landroid/os/Vibrator;"
            } else if text::same(name.as_str(), "audio") {
                "Landroid/media/AudioManager;"
            } else {
                "Landroid/content/Context;"
            };
            let id = w.alloc_instance(class_name);
            put_named(&mut w.framework.system_services, name.as_str(), id);
            Ok(Value::Object(id))
        },
    }
}

/// The intent of an activity always has extras.
pub open spec fn get_intent(w: WorldView, args: Seq<ValueView>) -> Effected {
    match convert::reference_arg(args, 0) {
        Err(e) => (w, Err(e)),
        Ok(receiver) => {
            let (after, intent) = field_or_new(
                w,
                receiver,
                "intent"@,
                "Landroid/content/Intent;"@,
            );
            match after.field_object(intent, "extras"@) {
                Some(_) => gives(after, ValueView::Object(intent)),
                None => gives(
                    after.with_object(world::instance_of("Landroid/os/Bundle;"@)).with_field(
                        intent,
                        "extras"@,
                        ValueView::Object(after.fresh()),
                    ),
                    ValueView::Object(intent),
                ),
            }
        },
    }
}

fn call_get_intent(w: &mut World, args: &Vec<Value>) -> (r: Result<Value, VmError>)
    ensures
        (final(w)@, error::outcome(r)) == get_intent(old(w)@, value::views(args@)),
{
    let receiver = object_arg(args, 0)?;
    let intent = get_field_or_new(w, receiver, "intent", "Landroid/content/Intent;");
    if w.object_field_object(intent, "extras").is_none() {
        let extras = w.alloc_instance("Landroid/os/Bundle;");
        w.set_object_field(intent, "extras", Value::Object(extras));
    }
    Ok(Value::Object(intent))
}

pub open spec fn shown_view(w: WorldView, activity: ObjectId, view: ObjectId) -> WorldView {
    WorldView {
        framework: FrameworkView {
            content_views: table::store(w.framework.content_views, activity, view),
            ..w.framework
        },
        ..w
    }
}

fn show_view(w: &mut World, activity: ObjectId, view: ObjectId)
    ensures
        final(w)@ == shown_view(old(w)@, activity, view),
{
    put_id(&mut w.framework.content_views, activity, view);
}

/// A new view of a class with an id, known to the surroundings.
pub open spec fn new_view(w: WorldView, class_name: Seq<char>, id: i32) -> WorldView {
    w.with_object(world::instance_of(class_name)).with_field(
        w.fresh(),
        "view_id"@,
        ValueView::Int(id),
    ).did(EffectView::EnsureView { view: w.fresh(), class_name })
}

fn make_view(w: &mut World, class_name: &str, id: i32) -> (r: ObjectId)
    ensures
        final(w)@ == new_view(old(w)@, class_name@, id),
        r == old(w)@.fresh(),
{
    let view = w.alloc_instance(class_name);
    w.set_object_field(view, "view_id", Value::Int(id));
    w.perform(Effect::EnsureView { view, class_name: class_name.to_owned() });
    view
}

pub open spec fn layout_class(id: i32) -> Seq<char> {
    if id == 2130903040 || id == 2130903042 || id == 2130903044 {
        "Landroid/widget/LinearLayout;"@
    } else {
        "Landroid/view/View;"@
    }
}

pub open spec fn set_content_view(w: WorldView, args: Seq<ValueView>) -> Effected {
    match convert::reference_arg(args, 0) {
        Err(e) => (w, Err(e)),
        Ok(activity) => match value::at(args, 1) {
            Some(ValueView::Object(view)) => gives(
                shown_view(w, activity, view),
                ValueView::Void,
            ),
            Some(ValueView::Int(id)) => gives(
                shown_view(new_view(w, layout_class(id), id), activity, w.fresh()),
                ValueView::Void,
            ),
            _ => gives(w, ValueView::Void),
        },
    }
}

fn call_set_content_view(w: &mut World, args: &Vec<Value>) -> (r: Result<Value, VmError>)
    ensures
        (final(w)@, error::outcome(r)) == set_content_view(old(w)@, value::views(args@)),
{
    let activity = object_arg(args, 0)?;
    match value_at(args, 1) {
        Some(Value::Object(view)) => show_view(w, activity, *view),
        Some(Value::Int(id)) => {
            let class_name = if *id == 2130903040 || *id == 2130903042 || *id == 2130903044 {
                "Landroid/widget/LinearLayout;"
            } else {
                "Landroid/view/View;"
            };
            let root = make_view(w, class_name, *id);
            show_view(w, activity, root);
        },
        _ => {},
    }
    Ok(Value::Void)
}

pub open spec fn found_class(id: i32) -> Seq<char> {
    if 2131165186 <= id <= 2131165189 {
        "Landroid/widget/Button;"@
    } else if id == 2131165185 {
        "Landroid/widget/LinearLayout;"@
    } else if id == 2131492892 {
        "Landroid/widget/ViewFlipper;"@
    } else if id == 2131492894 {
        "Lcom/mobclix/android/sdk/MobclixMMABannerXLAdView;"@
    } else {
        "Landroid/view/View;"@
    }
}

/// Each search for a view makes one.
pub open spec fn find_view(w: WorldView, args: Seq<ValueView>) -> Effected {
    match convert::integer_arg(args, 1) {
        Err(e) => (w, Err(e)),
        Ok(id) => gives(
            new_view(w, found_class(id), id).did(EffectView::SetViewId { view: w.fresh(), id }),
            ValueView::Object(w.fresh()),
        ),
    }
}

fn call_find_view(w: &mut World, args: &Vec<Value>) -> (r: Result<Value, VmError>)
    ensures
        (final(w)@, error::outcome(r)) == find_view(old(w)@, value::views(args@)),
{
    let id = int_arg(args, 1)?;
    let class_name = if 2131165186 <= id && id <= 2131165189 {
        "Landroid/widget/Button;"
    } else if id == 2131165185 {
        "Landroid/widget/LinearLayout;"
    } else if id == 2131492892 {
        "Landroid/widget/ViewFlipper;"
    } else if id == 2131492894 {
        "Lcom/mobclix/android/sdk/MobclixMMABannerXLAdView;"
    } else {
        "Landroid/view/View;"
    };
    let view = make_view(w, class_name, id);
    w.perform(Effect::SetViewId { view, id });
    Ok(Value::Object(view))
}

pub open spec fn get_preferences(w: WorldView, args: Seq<ValueView>) -> Effected {
    let after = w.with_object(world::instance_of("Landroid/content/SharedPreferences;"@));
    gives(
        after.with_field(w.fresh(), "name"@, ValueView::String(after.text_at(args, 1))),
        ValueView::Object(w.fresh()),
    )
}

fn call_get_preferences(w: &mut World, args: &Vec<Value>) -> (r: Result<Value, VmError>)
    ensures
        (final(w)@, error::outcome(r)) == get_preferences(old(w)@, value::views(args@)),
{
    let id = w.alloc_instance("Landroid/content/SharedPreferences;");
    let name = w.string_or_empty(args, 1);
    w.set_object_field(id, "name", Value::String(name));
    Ok(Value::Object(id))
}

pub open spec fn context(w: WorldView, method: Seq<char>, args: Seq<ValueView>) -> Effected {
    if method == "getApplicationContext"@ {
        gives(w, value::or_null(value::at(args, 0)))
    } else if method == "getResources"@ {
        makes(w, "Landroid/content/res/Resources;"@)
    } else if method == "getSystemService"@ {
        get_service(w, args)
    } else if method == "getSharedPreferences"@ {
        get_preferences(w, args)
    } else if method == "registerReceiver"@ {
        gives(w, ValueView::Null)
    } else if method == "getMainLooper"@ {
        makes(w, "Landroid/os/Looper;"@)
    } else if method == "startActivity"@ {
        start_activity(w, args)
    } else if method == "getIntent"@ {
        get_intent(w, args)
    } else if method == "setContentView"@ {
        set_content_view(w, args)
    } else if method == "findViewById"@ {
        find_view(w, args)
    } else if method == "setRequestedOrientation"@ || method == "requestWindowFeature"@ {
        gives(w, ValueView::Int(1))
    } else if method == "getWindow"@ {
        makes(w, "Landroid/view/Window;"@)
    } else if method == "getWindowManager"@ {
        makes(w, "Landroid/view/WindowManager;"@)
    } else {
        gives(w, ValueView::Void)
    }
}

pub fn call_context(w: &mut World, method: &str, args: &Vec<Value>) -> (r: Result<Value, VmError>)
    ensures
        (final(w)@, error::outcome(r)) == context(old(w)@, method@, value::views(args@)),
{
    if text::same(method, "getApplicationContext") {
        match value_at(args, 0) {
            Some(v) => Ok(v.clone()),
            None => Ok(Value::Null),
        }
    } else if text::same(method, "getResources") {
        make(w, "Landroid/content/res/Resources;")
    } else if text::same(method, "getSystemService") {
        call_get_service(w, args)
    } else if text::same(method, "getSharedPreferences") {
        call_get_preferences(w, args)
    } else if text::same(method, "registerReceiver") {
        Ok(Value::Null)
    } else if text::same(method, "getMainLooper") {
        make(w, "Landroid/os/Looper;")
    } else if text::same(method, "startActivity") {
        call_start_activity(w, args)
    } else if text::same(method, "getIntent") {
        call_get_intent(w, args)
    } else if text::same(method, "setContentView") {
        call_set_content_view(w, args)
    } else if text::same(method, "findViewById") {
        call_find_view(w, args)
    } else if text::same(method, "setRequestedOrientation") || text::same(
        method,
        "requestWindowFeature",
    ) {
        Ok(Value::Int(1))
    } else if text::same(method, "getWindow") {
        make(w, "Landroid/view/Window;")
    } else if text::same(method, "getWindowManager") {
        make(w, "Landroid/view/WindowManager;")
    } else {
        Ok(Value::Void)
    }
}

// `android.content.SharedPreferences`.

/// The name under which preferences are read.
pub open spec fn preferences_name(w: WorldView, prefs: ObjectId) -> Seq<char> {
    match w.field_text(prefs, "name"@) {
        Some(s) => s,
        None => text::decimal(prefs as int),
    }
}

fn find_preferences_name(w: &World, prefs: ObjectId) -> (r: String)
    ensures
        r@ == preferences_name(w@, prefs),
{
    match w.object_field_string(prefs, "name") {
        Some(s) => s,
        None => text::decimal_unsigned(prefs as u64),
    }
}

pub open spec fn preference(w: WorldView, prefs: ObjectId, args: Seq<ValueView>) -> Option<
    Seq<char>,
> {
    table::lookup(w.framework.preferences, (preferences_name(w, prefs), w.text_at(args, 1)))
}

fn find_preference(w: &World, prefs: ObjectId, args: &Vec<Value>) -> (r: Option<String>)
    ensures
        world::some_string(r) == preference(w@, prefs, value::views(args@)),
{
    let name = find_preferences_name(w, prefs);
    let key = w.string_or_empty(args, 1);
    match w.preference(name.as_str(), key.as_str()) {
        Some(s) => Some(s.clone()),
        None => None,
    }
}

/// A stored text is read as a single by the surroundings.
pub open spec fn preference_question(
    w: WorldView,
    method: Seq<char>,
    args: Seq<ValueView>,
    answers: Seq<AnswerView>,
) -> Option<QueryView> {
    if answers.len() == 0 && method == "getFloat"@ {
        match (convert::reference_arg(args, 0), convert::single_arg(args, 2)) {
            (Ok(prefs), Ok(_)) => match preference(w, prefs, args) {
                Some(s) => Some(QueryView::ParseSingle(s)),
                None => None,
            },
            _ => None,
        }
    } else {
        None
    }
}

pub fn ask_preferences(w: &World, method: &str, args: &Vec<Value>, answers: &Answers) -> (r: Option<
    Query,
>)
    ensures
        host::asked(r) == preference_question(
            w@,
            method@,
            value::views(args@),
            host::answers_view(answers@),
        ),
{
    if answers.len() == 0 && text::same(method, "getFloat") {
        match (object_arg(args, 0), float_arg(args, 2)) {
            (Ok(prefs), Ok(_)) => match find_preference(w, prefs, args) {
                Some(s) => Some(Query::ParseSingle(s)),
                None => None,
            },
            _ => None,
        }
    } else {
        None
    }
}

pub open spec fn in_int(n: int) -> bool {
    i32::MIN <= n <= i32::MAX
}

pub open spec fn in_long(n: int) -> bool {
    i64::MIN <= n <= i64::MAX
}

pub open spec fn truth(b: bool) -> ValueView {
    ValueView::Int(
        if b {
            1
        } else {
            0
        },
    )
}

pub open spec fn read_preference(
    w: WorldView,
    prefs: ObjectId,
    method: Seq<char>,
    args: Seq<ValueView>,
    answers: Seq<AnswerView>,
) -> Result<ValueView, error::ErrorView> {
    let stored = preference(w, prefs, args);
    if method == "getFloat"@ {
        match convert::single_arg(args, 2) {
            Err(e) => Err(e),
            Ok(otherwise) => match (stored, host::parsed_in(answers)) {
                (Some(_), Some(n)) => Ok(ValueView::Float(n)),
                _ => Ok(ValueView::Float(otherwise)),
            },
        }
    } else if method == "getString"@ {
        match stored {
            Some(s) => Ok(ValueView::String(s)),
            None => Ok(ValueView::String(w.text_at(args, 2))),
        }
    } else {
        match convert::integer_arg(args, 2) {
            Err(e) => Err(e),
            Ok(otherwise) => if method == "getBoolean"@ {
                match stored {
                    Some(s) => Ok(truth(s == "1"@)),
                    None => Ok(truth(otherwise != 0)),
                }
            } else if method == "getInt"@ {
                match stored {
                    Some(s) => match text::integer(s) {
                        Some(n) => if in_int(n) {
                            Ok(ValueView::Int(n as i32))
                        } else {
                            Ok(ValueView::Int(otherwise))
                        },
                        None => Ok(ValueView::Int(otherwise)),
                    },
                    None => Ok(ValueView::Int(otherwise)),
                }
            } else {
                match stored {
                    Some(s) => match text::integer(s) {
                        Some(n) => if in_long(n) {
                            Ok(ValueView::Long(n as i64))
                        } else {
                            Ok(ValueView::Long(otherwise as i64))
                        },
                        None => Ok(ValueView::Long(otherwise as i64)),
                    },
                    None => Ok(ValueView::Long(otherwise as i64)),
                }
            },
        }
    }
}

pub open spec fn reads_preference(method: Seq<char>) -> bool {
    method == "getBoolean"@ || method == "getInt"@ || method == "getLong"@ || method == "getFloat"@
        || method == "getString"@
}

fn get_preference(w: &World, prefs: ObjectId, method: &str, args: &Vec<Value>, answers: &Answers) -> (
r: Result<Value, VmError>)
    ensures
        error::outcome(r) == read_preference(
            w@,
            prefs,
            method@,
            value::views(args@),
            host::answers_view(answers@),
        ),
{
    let stored = find_preference(w, prefs, args);
    if text::same(method, "getFloat") {
        let otherwise = float_arg(args, 2)?;
        return match (stored, host::get_parsed(answers)) {
            (Some(_), Some(n)) => Ok(Value::Float(n)),
            _ => Ok(Value::Float(otherwise)),
        };
    }
    if text::same(method, "getString") {
        return match stored {
            Some(s) => Ok(Value::String(s)),
            None => Ok(Value::String(w.string_or_empty(args, 2))),
        };
    }
    let otherwise = int_arg(args, 2)?;
    if text::same(method, "getBoolean") {
        let set = match stored {
            Some(s) => text::same(s.as_str(), "1"),
            None => otherwise != 0,
        };
        if set {
            Ok(Value::Int(1))
        } else {
            Ok(Value::Int(0))
        }
    } else if text::same(method, "getInt") {
        match stored {
            Some(s) => match text::parse_int(s.as_str()) {
                Some(n) => Ok(Value::Int(n)),
                None => Ok(Value::Int(otherwise)),
            },
            None => Ok(Value::Int(otherwise)),
        }
    } else {
        match stored {
            Some(s) => match text::parse_long(s.as_str()) {
                Some(n) => Ok(Value::Long(n)),
                None => Ok(Value::Long(otherwise as i64)),
            },
            None => Ok(Value::Long(otherwise as i64)),
        }
    }
}

pub open spec fn preferences(
    w: WorldView,
    method: Seq<char>,
    args: Seq<ValueView>,
    answers: Seq<AnswerView>,
) -> Effected {
    match convert::reference_arg(args, 0) {
        Err(e) => (w, Err(e)),
        Ok(prefs) => if reads_preference(method) {
            (w, read_preference(w, prefs, method, args, answers))
        } else if method == "edit"@ {
            gives(
                w.with_object(
                    world::instance_of("Landroid/content/SharedPreferences$Editor;"@),
                ).with_field(w.fresh(), "prefs"@, ValueView::Object(prefs)),
                ValueView::Object(w.fresh()),
            )
        } else {
            gives(w, ValueView::Void)
        },
    }
}

pub fn call_preferences(w: &mut World, method: &str, args: &Vec<Value>, answers: &Answers) -> (r:
    Result<Value, VmError>)
    ensures
        (final(w)@, error::outcome(r)) == preferences(
            old(w)@,
            method@,
            value::views(args@),
            host::answers_view(answers@),
        ),
{
    let prefs = object_arg(args, 0)?;
    if text::same(method, "getBoolean") || text::same(method, "getInt") || text::same(
        method,
        "getLong",
    ) || text::same(method, "getFloat") || text::same(method, "getString") {
        get_preference(w, prefs, method, args, answers)
    } else if text::same(method, "edit") {
        let editor = w.alloc_instance("Landroid/content/SharedPreferences$Editor;");
        w.set_object_field(editor, "prefs", Value::Object(prefs));
        Ok(Value::Object(editor))
    } else {
        Ok(Value::Void)
    }
}

// `android.content.SharedPreferences.Editor`.

/// The text of a single is asked for.
pub open spec fn editor_question(
    method: Seq<char>,
    args: Seq<ValueView>,
    answers: Seq<AnswerView>,
) -> Option<QueryView> {
    if answers.len() == 0 && puts(method) && convert::reference_arg(args, 0) is Ok {
        match value::at(args, 2) {
            Some(ValueView::Float(v)) => Some(
                QueryView::Number { number: ValueView::Float(v), style: Style::Plain },
            ),
            _ => None,
        }
    } else {
        None
    }
}

pub fn ask_editor(method: &str, args: &Vec<Value>, answers: &Answers) -> (r: Option<Query>)
    ensures
        host::asked(r) == editor_question(
            method@,
            value::views(args@),
            host::answers_view(answers@),
        ),
{
    if answers.len() == 0 && is_put(method) && object_arg(args, 0).is_ok() {
        match value_at(args, 2) {
            Some(Value::Float(v)) => Some(
                Query::Number { number: Value::Float(*v), style: Style::Plain },
            ),
            _ => None,
        }
    } else {
        None
    }
}

pub open spec fn preference_text(value: Option<ValueView>, number: Seq<char>) -> Seq<char> {
    match value {
        Some(ValueView::String(s)) => s,
        Some(ValueView::Int(v)) => text::decimal(v as int),
        Some(ValueView::Long(v)) => text::decimal(v as int),
        Some(ValueView::Float(_)) => number,
        _ => Seq::empty(),
    }
}

/// Preferences are written under the number of their object.
pub open spec fn editor(
    w: WorldView,
    method: Seq<char>,
    args: Seq<ValueView>,
    answers: Seq<AnswerView>,
) -> Effected {
    match convert::reference_arg(args, 0) {
        Err(e) => (w, Err(e)),
        Ok(editor) => if puts(method) {
            let prefs = match w.field_object(editor, "prefs"@) {
                Some(id) => id,
                None => editor,
            };
            gives(
                WorldView {
                    framework: FrameworkView {
                        preferences: table::store(
                            w.framework.preferences,
                            (text::decimal(prefs as int), w.text_at(args, 1)),
                            preference_text(value::at(args, 2), host::text_in(answers, 0)),
                        ),
                        ..w.framework
                    },
                    ..w
                },
                ValueView::Object(editor),
            )
        } else if method == "commit"@ {
            gives(w, ValueView::Int(1))
        } else {
            gives(w, ValueView::Void)
        },
    }
}

pub fn call_editor(w: &mut World, method: &str, args: &Vec<Value>, answers: &Answers) -> (r: Result<
    Value,
    VmError,
>)
    ensures
        (final(w)@, error::outcome(r)) == editor(
            old(w)@,
            method@,
            value::views(args@),
            host::answers_view(answers@),
        ),
{
    let editor = object_arg(args, 0)?;
    if is_put(method) {
        let prefs = match w.object_field_object(editor, "prefs") {
            Some(id) => id,
            None => editor,
        };
        let key = w.string_or_empty(args, 1);
        let value = match value_at(args, 2) {
            Some(Value::String(s)) => s.clone(),
            Some(Value::Int(v)) => text::decimal_text(*v as i64),
            Some(Value::Long(v)) => text::decimal_text(*v),
            Some(Value::Float(_)) => host::get_text(answers, 0),
            _ => String::new(),
        };
        w.set_preference(text::decimal_unsigned(prefs as u64), key, value);
        Ok(Value::Object(editor))
    } else if text::same(method, "commit") {
        Ok(Value::Int(1))
    } else {
        Ok(Value::Void)
    }
}

// `android.content.res.Resources`.

pub open spec fn resource_id(args: Seq<ValueView>) -> u32 {
    match convert::integer_arg(args, 1) {
        Ok(id) => id as u32,
        Err(_) => 0,
    }
}

pub open spec fn resource_text(w: WorldView, args: Seq<ValueView>) -> Option<Seq<char>> {
    table::lookup(w.framework.resource_strings, resource_id(args))
}

/// A list of strings is one resource, with the text `\u0000` between its items.
pub open spec fn resource_items(w: WorldView, args: Seq<ValueView>) -> Seq<Seq<char>> {
    match resource_text(w, args) {
        Some(s) => text::split(s, "\\u0000"@),
        None => seq![Seq::empty(), Seq::empty(), Seq::empty()],
    }
}

pub open spec fn resources(w: WorldView, method: Seq<char>, args: Seq<ValueView>) -> Effected {
    if method == "getDisplayMetrics"@ {
        makes(w, "Landroid/util/DisplayMetrics;"@)
    } else if method == "getStringArray"@ {
        system::string_array(w, resource_items(w, args))
    } else if method == "getString"@ {
        match resource_text(w, args) {
            Some(s) => gives(w, ValueView::String(s)),
            None => gives(w, ValueView::String(Seq::empty())),
        }
    } else {
        gives(w, ValueView::Void)
    }
}

fn find_resource(w: &World, args: &Vec<Value>) -> (r: Option<String>)
    ensures
        world::some_string(r) == resource_text(w@, value::views(args@)),
{
    let id: u32 = match int_arg(args, 1) {
        Ok(id) => id as u32,
        Err(_) => 0,
    };
    match find_numbered(&w.framework.resource_strings, id) {
        Some(s) => Some(s.clone()),
        None => None,
    }
}

pub fn call_resources(w: &mut World, method: &str, args: &Vec<Value>) -> (r: Result<Value, VmError>)
    ensures
        (final(w)@, error::outcome(r)) == resources(old(w)@, method@, value::views(args@)),
{
    if text::same(method, "getDisplayMetrics") {
        make(w, "Landroid/util/DisplayMetrics;")
    } else if text::same(method, "getStringArray") {
        let items: Vec<String> = match find_resource(w, args) {
            Some(s) => {
                proof {
                    reveal_strlit("\\u0000");
                }
                let items = text::split_text(s.as_str(), "\\u0000");
                assert(host::texts(items@) =~= items.deep_view());
                items
            },
            None => {
                let items = vec![String::new(), String::new(), String::new()];
                assert(host::texts(items@) =~= seq![Seq::empty(), Seq::empty(), Seq::empty()]);
                items
            },
        };
        make_string_array(w, &items)
    } else if text::same(method, "getString") {
        match find_resource(w, args) {
            Some(s) => Ok(Value::String(s)),
            None => Ok(Value::String(String::new())),
        }
    } else {
        Ok(Value::Void)
    }
}

} // verus!
