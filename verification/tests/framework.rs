use dalvik_vm::framework::dispatch::{ask, dispatch_framework};
use dalvik_vm::host::{Answer, Bounds, Effect, Function, Query, Style};
use dalvik_vm::value::{HeapObject, Value};
use dalvik_vm::world::{CanvasState, Framework, World};
use dalvik_vm::color::Rgba8;

fn world() -> World {
    World {
        framework: Framework {
            surface_size: (320, 480),
            logs: vec![],
            preferences: vec![],
            files: vec![("save.dat".to_string(), vec![1, 2, 3])],
            system_services: vec![],
            content_views: vec![],
            media_players: vec![],
            surface_events: vec![],
            resource_strings: vec![
                (7, "one".to_string()),
                (8, "a\\u0000b".to_string()),
            ],
            resource_images: vec![(9, "res/hero.png".to_string())],
            gdx_view: None,
            gdx_listener: None,
            gdx_input: None,
            gdx_audio: None,
            gdx_files: None,
            gdx_graphics: None,
        },
        heap: vec![],
        canvas_stack: vec![],
        canvas_state: CanvasState::default(),
        touch_listeners: vec![],
        click_listeners: vec![],
        pending_activity: None,
        effects: vec![],
        frame_mode: false,
    }
}

fn single(n: f32) -> Value {
    Value::Float(n.to_bits())
}

fn double(n: f64) -> Value {
    Value::Double(n.to_bits())
}

fn text(s: &str) -> Value {
    Value::String(s.to_string())
}

fn call(w: &mut World, class_name: &str, method: &str, args: Vec<Value>) -> Result<Value, String> {
    with(w, class_name, method, args, vec![])
}

fn with(
    w: &mut World,
    class_name: &str,
    method: &str,
    args: Vec<Value>,
    answers: Vec<Answer>,
) -> Result<Value, String> {
    match dispatch_framework(w, class_name, method, &args, &answers) {
        Ok(v) => Ok(v),
        Err(e) => Err(e.describe(&vec![])),
    }
}

fn fault(message: &str) -> Result<Value, String> {
    Err(format!("Dalvik VM error at pc 0 opcode 0x00: {message}"))
}

fn class_at(w: &World, v: Result<Value, String>) -> String {
    match v {
        Ok(Value::Object(id)) => match w.class_name(id) {
            Some(name) => name.to_string(),
            None => panic!("no instance"),
        },
        _ => panic!("no object"),
    }
}

fn text_at(w: &World, v: Result<Value, String>) -> String {
    match v {
        Ok(Value::Object(id)) => match w.heap_object(id) {
            Some(HeapObject::String(s)) => s.clone(),
            _ => panic!("no string"),
        },
        _ => panic!("no object"),
    }
}

fn values_at(w: &World, id: u32) -> Vec<Value> {
    match w.heap_object(id) {
        Some(HeapObject::Collection(values)) => values.clone(),
        Some(HeapObject::Array { values, .. }) => values.clone(),
        _ => panic!("no values"),
    }
}

#[test]
fn a_log_line_is_kept() {
    let mut w = world();
    let log = "Landroid/util/Log;";
    assert_eq!(call(&mut w, log, "d", vec![text("tag"), text("hello")]), Ok(Value::Int(0)));
    assert_eq!(call(&mut w, log, "e", vec![text("tag"), Value::Int(3), text("late")]), Ok(Value::Int(0)));
    assert_eq!(call(&mut w, log, "w", vec![text("tag")]), Ok(Value::Int(0)));
    assert_eq!(call(&mut w, log, "isLoggable", vec![text("tag"), text("x")]), Ok(Value::Int(0)));
    assert_eq!(call(&mut w, log, "getStackTraceString", vec![]), Ok(text("")));
    assert_eq!(w.framework.logs, vec!["Log/d: hello", "Log/e: late", "Log/w: "]);
    let r = call(&mut w, "Ljava/lang/System;", "loadLibrary", vec![text("native")]);
    assert_eq!(r, Ok(Value::Void));
    assert_eq!(w.framework.logs[3], "System.loadLibrary ignored by HLE");
}

#[test]
fn a_thread_sleeps() {
    let mut w = world();
    let thread = "Ljava/lang/Thread;";
    assert_eq!(call(&mut w, thread, "sleep", vec![Value::Int(0)]), Ok(Value::Void));
    assert_eq!(call(&mut w, thread, "sleep", vec![Value::Int(-1)]), Ok(Value::Void));
    w.frame_mode = true;
    assert_eq!(call(&mut w, thread, "sleep", vec![Value::Int(0)]), Ok(Value::Void));
    assert_eq!(w.effects, vec![Effect::Sleep(0), Effect::Sleep(1)]);
    assert_eq!(call(&mut w, thread, "getPriority", vec![]), Ok(Value::Int(5)));
    assert_eq!(call(&mut w, thread, "join", vec![]), Ok(Value::Void));
    let r = call(&mut w, thread, "currentThread", vec![]);
    assert_eq!(class_at(&w, r), thread);
    let r = call(&mut w, "Landroid/os/Looper;", "getThread", vec![]);
    assert_eq!(class_at(&w, r), thread);
}

#[test]
fn the_system_tells_the_time_it_was_told() {
    let mut w = world();
    let system = "Ljava/lang/System;";
    assert_eq!(ask(&w, system, "nanoTime", &vec![], &vec![]), Some(Query::Nanoseconds));
    let r = with(&mut w, system, "nanoTime", vec![], vec![Answer::Nanoseconds(77)]);
    assert_eq!(r, Ok(Value::Long(77)));
    assert_eq!(call(&mut w, system, "currentTimeMillis", vec![]), Ok(Value::Long(0)));
    assert_eq!(call(&mut w, system, "identityHashCode", vec![Value::Null]), Ok(Value::Int(0)));
    assert_eq!(
        call(&mut w, system, "exit", vec![]),
        fault("framework method Ljava/lang/System;->exit is not implemented")
    );
}

#[test]
fn parts_of_arrays_are_copied() {
    let mut w = world();
    let from = w.allocate(HeapObject::Array {
        component: "I".to_string(),
        values: vec![Value::Int(1), Value::Int(2), Value::Int(3)],
    });
    let to = w.allocate(HeapObject::Array {
        component: "I".to_string(),
        values: vec![Value::Int(0), Value::Int(0), Value::Int(0)],
    });
    let system = "Ljava/lang/System;";
    let copy = |w: &mut World, a: u32, i: i32, b: u32, j: i32, n: i32| {
        call(
            w,
            system,
            "arraycopy",
            vec![Value::Object(a), Value::Int(i), Value::Object(b), Value::Int(j), Value::Int(n)],
        )
    };
    assert_eq!(copy(&mut w, from, 1, to, 0, 2), Ok(Value::Void));
    assert_eq!(values_at(&w, to), vec![Value::Int(2), Value::Int(3), Value::Int(0)]);
    // Onto itself, a negative length, and past an end.
    assert_eq!(copy(&mut w, from, 0, from, 1, 2), Ok(Value::Void));
    assert_eq!(values_at(&w, from), vec![Value::Int(1), Value::Int(1), Value::Int(2)]);
    assert_eq!(copy(&mut w, from, 0, to, 0, -5), Ok(Value::Void));
    assert_eq!(
        copy(&mut w, from, 2, to, 0, 2),
        fault("System.arraycopy range is outside an array")
    );
    assert_eq!(
        copy(&mut w, from, -1, to, 0, 1),
        fault("System.arraycopy range is outside an array")
    );
    let list = w.alloc_collection();
    assert_eq!(copy(&mut w, list, 0, to, 0, 1), fault("System.arraycopy source is not an array"));
    assert_eq!(
        copy(&mut w, from, 0, list, 0, 1),
        fault("System.arraycopy destination is not an array")
    );
}

#[test]
fn a_list_is_sorted() {
    let mut w = world();
    let list = w.allocate(HeapObject::Collection(vec![
        Value::Int(3),
        Value::Long(1),
        Value::Int(2),
        Value::Int(1),
    ]));
    let r = call(&mut w, "Ljava/util/Collections;", "sort", vec![Value::Object(list)]);
    assert_eq!(r, Ok(Value::Void));
    // Equal numbers stay in their order.
    assert_eq!(
        values_at(&w, list),
        vec![Value::Long(1), Value::Int(1), Value::Int(2), Value::Int(3)]
    );
    let string = w.alloc_string("x".to_string());
    assert_eq!(
        call(&mut w, "Ljava/util/Collections;", "sort", vec![Value::Object(string)]),
        fault("Collections.sort target is not a collection")
    );
}

#[test]
fn an_intent_starts_an_activity() {
    let mut w = world();
    let class = w.allocate(HeapObject::Class("Lapp/Level;".to_string()));
    let intent = w.alloc_instance("Landroid/content/Intent;");
    let name = "Landroid/content/Intent;";
    let me = Value::Object(intent);
    let r = call(&mut w, name, "<init>", vec![me.clone(), Value::Null, Value::Object(class)]);
    assert_eq!(r, Ok(Value::Void));
    assert_eq!(call(&mut w, name, "setFlags", vec![me.clone(), Value::Int(5)]), Ok(me.clone()));
    assert_eq!(call(&mut w, name, "addFlags", vec![me.clone(), Value::Int(8)]), Ok(me.clone()));
    assert_eq!(call(&mut w, name, "getFlags", vec![me.clone()]), Ok(Value::Int(13)));
    assert_eq!(call(&mut w, name, "setAction", vec![me.clone()]), Ok(me.clone()));
    let r = call(&mut w, name, "putExtra", vec![me.clone(), text("level"), Value::Int(4)]);
    assert_eq!(r, Ok(me.clone()));
    assert_eq!(w.object_field_int(intent, "extra:level"), Some(4));
    let extras = call(&mut w, name, "getExtras", vec![me.clone()]);
    assert_eq!(class_at(&w, extras.clone()), "Landroid/os/Bundle;");
    assert_eq!(call(&mut w, name, "getExtras", vec![me.clone()]), extras);
    let r = call(&mut w, "Landroid/app/Activity;", "startActivity", vec![Value::Null, me]);
    assert_eq!(r, Ok(Value::Void));
    assert_eq!(w.pending_activity, Some(("Lapp/Level;".to_string(), intent)));
    assert_eq!(
        call(&mut w, name, "getFlags", vec![]),
        fault("framework argument 0 is not an object")
    );
}

#[test]
fn a_bundle_gives_what_was_put() {
    let mut w = world();
    let id = w.alloc_instance("Landroid/os/Bundle;");
    let bundle = "Landroid/os/Bundle;";
    let me = Value::Object(id);
    assert_eq!(
        call(&mut w, bundle, "getInt", vec![me.clone(), text("n"), Value::Int(6)]),
        Ok(Value::Int(6))
    );
    assert_eq!(call(&mut w, bundle, "containsKey", vec![me.clone(), text("n")]), Ok(Value::Int(0)));
    assert_eq!(
        call(&mut w, bundle, "putInt", vec![me.clone(), text("n"), Value::Int(9)]),
        Ok(Value::Void)
    );
    assert_eq!(
        call(&mut w, bundle, "getInt", vec![me.clone(), text("n"), Value::Int(6)]),
        Ok(Value::Int(9))
    );
    assert_eq!(call(&mut w, bundle, "containsKey", vec![me.clone(), text("n")]), Ok(Value::Int(1)));
    assert_eq!(call(&mut w, bundle, "getBoolean", vec![me.clone(), text("m")]), Ok(Value::Int(0)));
    assert_eq!(call(&mut w, bundle, "size", vec![me]), Ok(Value::Void));
}

#[test]
fn a_service_is_made_the_first_time() {
    let mut w = world();
    let context = "Landroid/content/Context;";
    let first = call(&mut w, context, "getSystemService", vec![Value::Null, text("sensor")]);
    assert_eq!(class_at(&w, first.clone()), "Landroid/hardware/SensorManager;");
    let other = call(&mut w, context, "getSystemService", vec![Value::Null, text("audio")]);
    assert_eq!(class_at(&w, other), "Landroid/media/AudioManager;");
    let last = call(&mut w, context, "getSystemService", vec![Value::Null, text("other")]);
    assert_eq!(class_at(&w, last), "Landroid/content/Context;");
    let again = call(&mut w, context, "getSystemService", vec![Value::Null, text("sensor")]);
    assert_eq!(again, first);
    assert_eq!(call(&mut w, context, "getApplicationContext", vec![]), Ok(Value::Null));
    assert_eq!(
        call(&mut w, context, "getApplicationContext", vec![Value::Int(2)]),
        Ok(Value::Int(2))
    );
    assert_eq!(call(&mut w, context, "registerReceiver", vec![]), Ok(Value::Null));
    assert_eq!(call(&mut w, context, "unregisterReceiver", vec![]), Ok(Value::Void));
    assert_eq!(call(&mut w, context, "<init>", vec![]), Ok(Value::Void));
    assert_eq!(call(&mut w, context, "requestWindowFeature", vec![]), Ok(Value::Int(1)));
    assert_eq!(call(&mut w, "Landroid/app/Service;", "stopSelf", vec![]), Ok(Value::Void));
    let r = call(&mut w, "Landroid/os/Environment;", "getExternalStorageDirectory", vec![]);
    assert_eq!(class_at(&w, r), "Ljava/io/File;");
}

#[test]
fn an_activity_keeps_its_intent() {
    let mut w = world();
    let activity = w.alloc_instance("Lapp/Main;");
    let intent = w.alloc_instance("Landroid/content/Intent;");
    w.set_object_field(activity, "intent", Value::Object(intent));
    let r = call(&mut w, "Landroid/app/Activity;", "getIntent", vec![Value::Object(activity)]);
    assert_eq!(r, Ok(Value::Object(intent)));
    let extras = w.object_field_object(intent, "extras");
    assert!(extras.is_some());
    let r = call(&mut w, "Landroid/app/Activity;", "getIntent", vec![Value::Object(activity)]);
    assert_eq!(r, Ok(Value::Object(intent)));
    assert_eq!(w.object_field_object(intent, "extras"), extras);
}

#[test]
fn a_content_view_is_shown_or_made() {
    let mut w = world();
    let activity = w.alloc_instance("Lapp/Main;");
    let view = w.alloc_instance("Lapp/GameView;");
    let name = "Landroid/app/Activity;";
    let me = Value::Object(activity);
    let r = call(&mut w, name, "setContentView", vec![me.clone(), Value::Object(view)]);
    assert_eq!(r, Ok(Value::Void));
    assert_eq!(w.framework.content_views, vec![(activity, view)]);
    let r = call(&mut w, name, "setContentView", vec![me.clone(), Value::Int(2130903042)]);
    assert_eq!(r, Ok(Value::Void));
    let root = w.framework.content_views[0].1;
    assert_eq!(w.class_name(root), Some("Landroid/widget/LinearLayout;"));
    assert_eq!(w.object_field_int(root, "view_id"), Some(2130903042));
    let r = call(&mut w, name, "setContentView", vec![me.clone(), Value::Null]);
    assert_eq!(r, Ok(Value::Void));
    let r = call(&mut w, name, "findViewById", vec![me.clone(), Value::Int(2131165188)]);
    assert_eq!(class_at(&w, r), "Landroid/widget/Button;");
    let r = call(&mut w, name, "findViewById", vec![me.clone(), Value::Int(2131492892)]);
    assert_eq!(class_at(&w, r), "Landroid/widget/ViewFlipper;");
    let r = call(&mut w, name, "findViewById", vec![me.clone(), Value::Int(1)]);
    assert_eq!(class_at(&w, r), "Landroid/view/View;");
    assert_eq!(
        call(&mut w, name, "findViewById", vec![me]),
        fault("framework argument 1 is not an integer")
    );
}

#[test]
fn preferences_are_edited_and_read() {
    let mut w = world();
    let name = "Landroid/content/SharedPreferences;";
    let editing = "Landroid/content/SharedPreferences$Editor;";
    let prefs = Value::Object(w.alloc_instance(name));
    let editor = match call(&mut w, name, "edit", vec![prefs.clone()]) {
        Ok(v) => v,
        Err(e) => panic!("{e}"),
    };
    let put = |w: &mut World, method: &str, key: &str, v: Value| {
        assert_eq!(call(w, editing, method, vec![editor.clone(), text(key), v]), Ok(editor.clone()));
    };
    put(&mut w, "putInt", "n", Value::Int(-17));
    put(&mut w, "putBoolean", "b", Value::Int(1));
    put(&mut w, "putLong", "l", Value::Long(1 << 40));
    put(&mut w, "putString", "s", text("hello"));
    put(&mut w, "putInt", "n", Value::Int(-18));
    assert_eq!(call(&mut w, editing, "commit", vec![editor.clone()]), Ok(Value::Int(1)));
    assert_eq!(call(&mut w, editing, "apply", vec![editor.clone()]), Ok(Value::Void));
    let get = |w: &mut World, method: &str, key: &str, v: Value| {
        call(w, name, method, vec![prefs.clone(), text(key), v])
    };
    assert_eq!(get(&mut w, "getInt", "n", Value::Int(0)), Ok(Value::Int(-18)));
    assert_eq!(get(&mut w, "getInt", "s", Value::Int(3)), Ok(Value::Int(3)));
    assert_eq!(get(&mut w, "getInt", "l", Value::Int(3)), Ok(Value::Int(3)));
    assert_eq!(get(&mut w, "getLong", "l", Value::Int(3)), Ok(Value::Long(1 << 40)));
    assert_eq!(get(&mut w, "getBoolean", "b", Value::Int(0)), Ok(Value::Int(1)));
    assert_eq!(get(&mut w, "getBoolean", "c", Value::Int(4)), Ok(Value::Int(1)));
    assert_eq!(get(&mut w, "getString", "s", text("")), Ok(text("hello")));
    assert_eq!(get(&mut w, "getString", "t", text("none")), Ok(text("none")));
    assert_eq!(
        call(&mut w, name, "getInt", vec![prefs.clone(), text("n")]),
        fault("framework argument 2 is not an integer")
    );
}

#[test]
fn named_preferences_are_read_under_their_name() {
    let mut w = world();
    let context = "Landroid/content/Context;";
    let r = call(&mut w, context, "getSharedPreferences", vec![Value::Null, text("scores")]);
    let prefs = match r {
        Ok(v) => v,
        Err(e) => panic!("{e}"),
    };
    w.set_preference("scores".to_string(), "best".to_string(), "12".to_string());
    let name = "Landroid/content/SharedPreferences;";
    assert_eq!(
        call(&mut w, name, "getInt", vec![prefs.clone(), text("best"), Value::Int(0)]),
        Ok(Value::Int(12))
    );
    // Edits go under the number of the object.
    let editor = match call(&mut w, name, "edit", vec![prefs.clone()]) {
        Ok(v) => v,
        Err(e) => panic!("{e}"),
    };
    let editing = "Landroid/content/SharedPreferences$Editor;";
    let r = call(&mut w, editing, "putInt", vec![editor, text("best"), Value::Int(40)]);
    assert!(r.is_ok());
    assert_eq!(
        call(&mut w, name, "getInt", vec![prefs, text("best"), Value::Int(0)]),
        Ok(Value::Int(12))
    );
}

#[test]
fn a_single_among_the_preferences_is_asked_for() {
    let mut w = world();
    let editing = "Landroid/content/SharedPreferences$Editor;";
    let id = w.alloc_instance(editing);
    let args = vec![Value::Object(id), text("f"), single(1.5)];
    assert_eq!(
        ask(&w, editing, "putFloat", &args, &vec![]),
        Some(Query::Number { number: single(1.5), style: Style::Plain })
    );
    let r = with(&mut w, editing, "putFloat", args, vec![Answer::Text("1.5".to_string())]);
    assert_eq!(r, Ok(Value::Object(id)));
    let name = "Landroid/content/SharedPreferences;";
    let args = vec![Value::Object(id), text("f"), single(0.0)];
    assert_eq!(
        ask(&w, name, "getFloat", &args, &vec![]),
        Some(Query::ParseSingle("1.5".to_string()))
    );
    let answer = Answer::Parsed(Some(1.5f32.to_bits()));
    assert_eq!(with(&mut w, name, "getFloat", args, vec![answer]), Ok(single(1.5)));
}

#[test]
fn resources_have_texts() {
    let mut w = world();
    let resources = "Landroid/content/res/Resources;";
    assert_eq!(
        call(&mut w, resources, "getString", vec![Value::Null, Value::Int(7)]),
        Ok(text("one"))
    );
    assert_eq!(
        call(&mut w, resources, "getString", vec![Value::Null, Value::Int(99)]),
        Ok(text(""))
    );
    let r = call(&mut w, resources, "getStringArray", vec![Value::Null, Value::Int(8)]);
    let items: Vec<String> = match r {
        Ok(Value::Object(id)) => {
            values_at(&w, id).into_iter().map(|v| text_at(&w, Ok(v))).collect()
        }
        _ => panic!("no array"),
    };
    assert_eq!(items, vec!["a", "b"]);
    match call(&mut w, resources, "getStringArray", vec![Value::Null, Value::Int(99)]) {
        Ok(Value::Object(id)) => assert_eq!(values_at(&w, id).len(), 3),
        _ => panic!("no array"),
    }
}

#[test]
fn a_canvas_draws_where_it_was_moved() {
    let mut w = world();
    let canvas = "Landroid/graphics/Canvas;";
    let me = Value::Object(w.alloc_instance(canvas));
    let paint = w.alloc_instance("Landroid/graphics/Paint;");
    let r = call(
        &mut w,
        "Landroid/graphics/Paint;",
        "setColor",
        vec![Value::Object(paint), Value::Int(0x8001_0203u32 as i32)],
    );
    assert_eq!(r, Ok(Value::Void));
    assert_eq!(call(&mut w, canvas, "save", vec![me.clone()]), Ok(Value::Int(1)));
    assert_eq!(
        call(&mut w, canvas, "translate", vec![me.clone(), single(10.0), single(20.0)]),
        Ok(Value::Void)
    );
    assert_eq!(
        call(&mut w, canvas, "scale", vec![me.clone(), single(2.0), single(3.0)]),
        Ok(Value::Void)
    );
    let rect = vec![
        me.clone(),
        single(1.0),
        single(2.0),
        single(5.0),
        single(4.0),
        Value::Object(paint),
    ];
    assert_eq!(call(&mut w, canvas, "drawRect", rect), Ok(Value::Void));
    assert_eq!(
        w.effects,
        vec![Effect::DrawQuad {
            bounds: Bounds {
                x: 12.0f32.to_bits(),
                y: 26.0f32.to_bits(),
                width: 8.0f32.to_bits(),
                height: 6.0f32.to_bits(),
            },
            color: Rgba8 { r: 1, g: 2, b: 3, a: 0x80 },
        }]
    );
    assert_eq!(call(&mut w, canvas, "restore", vec![me.clone()]), Ok(Value::Void));
    assert_eq!(w.canvas_state, CanvasState::default());
    assert_eq!(call(&mut w, canvas, "restore", vec![me.clone()]), Ok(Value::Void));
    assert_eq!(call(&mut w, canvas, "clipRect", vec![me]), Ok(Value::Void));
    assert_eq!(
        call(&mut w, canvas, "save", vec![]),
        fault("framework argument 0 is not an object")
    );
}

#[test]
fn a_bitmap_is_decoded_and_drawn() {
    let mut w = world();
    let factory = "Landroid/graphics/BitmapFactory;";
    let args = vec![Value::Null, Value::Int(9)];
    assert_eq!(
        ask(&w, factory, "decodeResource", &args, &vec![]),
        Some(Query::ImageSize("res/hero.png".to_string()))
    );
    let r = with(&mut w, factory, "decodeResource", args, vec![Answer::Size(Some((16, 32)))]);
    let bitmap = match r {
        Ok(v) => v,
        Err(e) => panic!("{e}"),
    };
    let name = "Landroid/graphics/Bitmap;";
    assert_eq!(call(&mut w, name, "getWidth", vec![bitmap.clone()]), Ok(Value::Int(16)));
    assert_eq!(call(&mut w, name, "getHeight", vec![bitmap.clone()]), Ok(Value::Int(32)));
    assert_eq!(call(&mut w, name, "getHeight", vec![]), Ok(Value::Int(480)));
    let copy = match call(&mut w, name, "createBitmap", vec![bitmap.clone()]) {
        Ok(v) => v,
        Err(e) => panic!("{e}"),
    };
    assert_eq!(call(&mut w, name, "getWidth", vec![copy.clone()]), Ok(Value::Int(16)));
    let canvas = "Landroid/graphics/Canvas;";
    let me = Value::Object(w.alloc_instance(canvas));
    let args = vec![me, copy, single(3.0), single(4.0)];
    assert_eq!(
        ask(&w, canvas, "drawBitmap", &args, &vec![]),
        Some(Query::Image("res/hero.png".to_string()))
    );
    let r = with(&mut w, canvas, "drawBitmap", args, vec![Answer::Size(Some((16, 32)))]);
    assert_eq!(r, Ok(Value::Void));
    assert_eq!(
        w.effects,
        vec![
            Effect::UploadImage("res/hero.png".to_string()),
            Effect::Enable(0x0be2),
            Effect::BlendFunc(0x0302, 0x0303),
            Effect::DrawTexture {
                bounds: Bounds {
                    x: 3.0f32.to_bits(),
                    y: 4.0f32.to_bits(),
                    width: 16.0f32.to_bits(),
                    height: 32.0f32.to_bits(),
                },
                color: Rgba8 { r: 255, g: 255, b: 255, a: 255 },
            },
        ]
    );
    let r = call(&mut w, factory, "decodeStream", vec![]);
    assert_eq!(class_at(&w, r), "Landroid/graphics/Bitmap;");
    assert_eq!(call(&mut w, factory, "decodeByteArray", vec![]), Ok(Value::Null));
}

#[test]
fn colours_are_mixed() {
    let mut w = world();
    let color = "Landroid/graphics/Color;";
    assert_eq!(
        call(&mut w, color, "rgb", vec![Value::Int(1), Value::Int(0x102), Value::Int(-1)]),
        Ok(Value::Int(0xff01_02ffu32 as i32))
    );
    assert_eq!(
        call(
            &mut w,
            color,
            "argb",
            vec![Value::Int(0x7f), Value::Int(1), Value::Int(2), Value::Int(3)]
        ),
        Ok(Value::Int(0x7f01_0203))
    );
    assert_eq!(call(&mut w, color, "red", vec![]), Ok(Value::Int(-1)));
}

#[test]
fn text_is_measured() {
    let mut w = world();
    let paint = "Landroid/graphics/Paint;";
    let me = Value::Object(w.alloc_instance(paint));
    assert_eq!(
        call(&mut w, paint, "measureText", vec![me.clone(), text("four")]),
        Ok(single(24.0))
    );
    assert_eq!(
        call(&mut w, paint, "setTextSize", vec![me.clone(), single(20.0)]),
        Ok(Value::Void)
    );
    assert_eq!(
        call(&mut w, paint, "measureText", vec![me.clone(), text("four")]),
        Ok(single(40.0))
    );
    assert_eq!(call(&mut w, paint, "measureText", vec![me.clone()]), Ok(single(0.0)));
    assert_eq!(call(&mut w, paint, "setAntiAlias", vec![me]), Ok(Value::Void));
}

#[test]
fn mathematics_on_numbers() {
    let mut w = world();
    let math = "Ljava/lang/Math;";
    assert_eq!(call(&mut w, math, "round", vec![single(2.5)]), Ok(Value::Int(3)));
    assert_eq!(call(&mut w, math, "round", vec![double(-2.5)]), Ok(Value::Int(-3)));
    assert_eq!(call(&mut w, math, "round", vec![double(f64::NAN)]), Ok(Value::Int(0)));
    assert_eq!(call(&mut w, math, "round", vec![single(f32::INFINITY)]), Ok(Value::Int(i32::MAX)));
    assert_eq!(call(&mut w, math, "abs", vec![Value::Int(-4)]), Ok(Value::Int(4)));
    assert_eq!(call(&mut w, math, "abs", vec![single(-0.5)]), Ok(single(0.5)));
    assert_eq!(call(&mut w, math, "abs", vec![Value::Null]), Ok(Value::Int(0)));
    assert_eq!(
        call(&mut w, math, "min", vec![double(1.0), double(-1.0)]),
        Ok(double(-1.0))
    );
    assert_eq!(
        call(&mut w, math, "max", vec![single(f32::NAN), single(2.0)]),
        Ok(single(2.0))
    );
    assert_eq!(call(&mut w, math, "max", vec![Value::Int(1), Value::Int(2)]), Ok(Value::Int(2)));
    assert_eq!(call(&mut w, math, "min", vec![Value::Long(1), Value::Int(2)]), Ok(Value::Int(0)));
    assert_eq!(
        call(&mut w, math, "floor", vec![]),
        fault("java.lang.Math method floor is not implemented")
    );
}

#[test]
fn functions_of_numbers_are_asked_for() {
    let mut w = world();
    let math = "Ljava/lang/Math;";
    assert_eq!(
        ask(&w, math, "sqrt", &vec![Value::Int(4)], &vec![]),
        Some(Query::Double { function: Function::Sqrt, double: 4.0f64.to_bits() })
    );
    let r = with(&mut w, math, "sqrt", vec![Value::Int(4)], vec![Answer::Double(2.0f64.to_bits())]);
    assert_eq!(r, Ok(double(2.0)));
    assert_eq!(
        ask(&w, math, "sin", &vec![single(1.0)], &vec![]),
        Some(Query::Single { function: Function::Sin, single: 1.0f32.to_bits() })
    );
    let r = with(&mut w, math, "sin", vec![single(1.0)], vec![Answer::Single(7)]);
    assert_eq!(r, Ok(Value::Float(7)));
    assert_eq!(call(&mut w, math, "cos", vec![Value::Null]), Ok(double(0.0)));
    assert_eq!(
        ask(&w, math, "atan2", &vec![single(1.0)], &vec![]),
        Some(Query::Angle { y: 1.0f64.to_bits(), x: 0.0f64.to_bits() })
    );
    assert_eq!(
        ask(&w, math, "toRadians", &vec![Value::Int(180)], &vec![]),
        Some(Query::Double { function: Function::ToRadians, double: 180.0f64.to_bits() })
    );
    assert_eq!(ask(&w, math, "random", &vec![], &vec![]), Some(Query::Nanoseconds));
    let r = with(&mut w, math, "random", vec![], vec![Answer::Nanoseconds(7_250_000)]);
    assert_eq!(r, Ok(double(0.25)));
}

#[test]
fn builders_and_lists_are_constructed() {
    let mut w = world();
    let builder = w.alloc_instance("Ljava/lang/StringBuilder;");
    let me = Value::Object(builder);
    let name = "Ljava/lang/StringBuilder;";
    assert_eq!(call(&mut w, name, "<init>", vec![me.clone(), text("a")]), Ok(Value::Void));
    assert_eq!(call(&mut w, name, "append", vec![me.clone(), Value::Int(-12)]), Ok(me.clone()));
    assert_eq!(
        ask(&w, name, "append", &vec![me.clone(), double(0.5)], &vec![]),
        Some(Query::Number { number: double(0.5), style: Style::Plain })
    );
    let r = with(
        &mut w,
        name,
        "append",
        vec![me.clone(), double(0.5)],
        vec![Answer::Text("0.5".to_string())],
    );
    assert_eq!(r, Ok(me.clone()));
    assert_eq!(call(&mut w, name, "append", vec![me.clone(), Value::Null]), Ok(me.clone()));
    assert_eq!(call(&mut w, name, "length", vec![me.clone()]), Ok(Value::Int(7)));
    let r = call(&mut w, name, "toString", vec![me.clone()]);
    assert_eq!(text_at(&w, r), "a-120.5");
    assert_eq!(
        call(&mut w, name, "reverse", vec![me]),
        fault("framework method Ljava/lang/StringBuilder;->reverse is not implemented")
    );
    let list = w.alloc_instance("Ljava/util/ArrayList;");
    let me = Value::Object(list);
    let name = "Ljava/util/ArrayList;";
    assert_eq!(call(&mut w, name, "<init>", vec![me.clone()]), Ok(Value::Void));
    assert_eq!(call(&mut w, name, "isEmpty", vec![me.clone()]), Ok(Value::Int(1)));
    assert_eq!(call(&mut w, name, "add", vec![me.clone(), Value::Int(5)]), Ok(Value::Int(1)));
    assert_eq!(call(&mut w, name, "addElement", vec![me.clone()]), Ok(Value::Void));
    assert_eq!(call(&mut w, name, "size", vec![me.clone()]), Ok(Value::Int(2)));
    assert_eq!(call(&mut w, name, "get", vec![me.clone(), Value::Int(0)]), Ok(Value::Int(5)));
    assert_eq!(call(&mut w, name, "get", vec![me.clone(), Value::Int(-1)]), Ok(Value::Null));
    assert_eq!(call(&mut w, name, "get", vec![me.clone(), Value::Int(1)]), Ok(Value::Null));
    assert_eq!(call(&mut w, name, "clear", vec![me.clone()]), Ok(Value::Void));
    assert_eq!(call(&mut w, name, "size", vec![me]), Ok(Value::Int(0)));
    assert_eq!(call(&mut w, "Lcom/badlogic/gdx/X;", "<init>", vec![]), Ok(Value::Void));
}

#[test]
fn texts_are_compared_and_cut() {
    let mut w = world();
    let string = "Ljava/lang/String;";
    assert_eq!(call(&mut w, string, "length", vec![text("h\u{e9}llo")]), Ok(Value::Int(5)));
    assert_eq!(call(&mut w, string, "equals", vec![text("12"), Value::Int(12)]), Ok(Value::Int(1)));
    assert_eq!(
        call(&mut w, string, "equalsIgnoreCase", vec![text("AbC"), text("aBc")]),
        Ok(Value::Int(1))
    );
    assert_eq!(
        call(&mut w, string, "startsWith", vec![text("abc"), text("ab")]),
        Ok(Value::Int(1))
    );
    assert_eq!(
        call(&mut w, string, "endsWith", vec![text("abc"), text("ab")]),
        Ok(Value::Int(0))
    );
    assert_eq!(
        call(&mut w, string, "contains", vec![text("abc"), text("b")]),
        Ok(Value::Int(1))
    );
    // Places are counted in bytes, characters in characters.
    assert_eq!(
        call(&mut w, string, "indexOf", vec![text("h\u{e9}llo"), text("l")]),
        Ok(Value::Int(3))
    );
    assert_eq!(
        call(&mut w, string, "indexOf", vec![text("hello"), text("x")]),
        Ok(Value::Int(-1))
    );
    assert_eq!(
        call(&mut w, string, "charAt", vec![text("h\u{e9}llo"), Value::Int(2)]),
        Ok(Value::Int(108))
    );
    assert_eq!(
        call(&mut w, string, "charAt", vec![text("hello"), Value::Int(9)]),
        Ok(Value::Int(0))
    );
    let r = call(&mut w, string, "concat", vec![text("ab"), Value::Null]);
    assert_eq!(text_at(&w, r), "abnull");
    let parts = |w: &mut World, s: &str, by: &str| -> Vec<String> {
        match call(w, string, "split", vec![text(s), text(by)]) {
            Ok(Value::Object(id)) => {
                values_at(w, id).into_iter().map(|v| text_at(w, Ok(v))).collect()
            }
            _ => panic!("no array"),
        }
    };
    assert_eq!(parts(&mut w, "a,,b", ","), vec!["a", "", "b"]);
    assert_eq!(parts(&mut w, "ab", ""), vec!["a", "b"]);
    assert_eq!(parts(&mut w, "", ","), vec![""]);
    let boxed = w.allocate(HeapObject::Boxed(single(1.0)));
    assert_eq!(
        ask(&w, string, "valueOf", &vec![Value::Object(boxed)], &vec![]),
        Some(Query::Number { number: single(1.0), style: Style::Debug })
    );
    let r = with(
        &mut w,
        string,
        "valueOf",
        vec![Value::Object(boxed)],
        vec![Answer::Text("1.0".to_string())],
    );
    assert_eq!(text_at(&w, r), "Float(1.0)");
}

#[test]
fn numbers_are_boxed() {
    let mut w = world();
    let integer = "Ljava/lang/Integer;";
    let boxed = match call(&mut w, integer, "valueOf", vec![double(2.75)]) {
        Ok(v) => v,
        Err(e) => panic!("{e}"),
    };
    assert_eq!(call(&mut w, integer, "intValue", vec![boxed.clone()]), Ok(Value::Int(2)));
    assert_eq!(call(&mut w, integer, "longValue", vec![boxed.clone()]), Ok(Value::Long(2)));
    assert_eq!(call(&mut w, integer, "floatValue", vec![boxed.clone()]), Ok(single(2.75)));
    assert_eq!(call(&mut w, integer, "doubleValue", vec![boxed.clone()]), Ok(double(2.75)));
    assert_eq!(call(&mut w, integer, "booleanValue", vec![boxed]), Ok(Value::Int(1)));
    assert_eq!(call(&mut w, integer, "intValue", vec![Value::Null]), Ok(Value::Int(0)));
    let r = call(&mut w, integer, "toString", vec![Value::Long(-9)]);
    assert_eq!(text_at(&w, r), "-9");
    assert_eq!(
        call(&mut w, integer, "intValue", vec![text("x")]),
        fault("framework argument 0 is not a boxed primitive: String(\"x\")")
    );
    let odd = w.allocate(HeapObject::Boxed(Value::Void));
    assert_eq!(
        call(&mut w, integer, "intValue", vec![Value::Object(odd)]),
        fault("boxed value is not numeric: Void")
    );
    assert_eq!(
        call(&mut w, integer, "parseInt", vec![text("1")]),
        fault("framework method Ljava/lang/Integer;->parseInt is not implemented")
    );
}

#[test]
fn classes_are_named() {
    let mut w = world();
    let id = w.alloc_instance("Lapp/Thing;");
    match call(&mut w, "Ljava/lang/Object;", "getClass", vec![Value::Object(id)]) {
        Ok(Value::Object(class)) => {
            assert!(matches!(w.heap_object(class), Some(HeapObject::Class(s)) if s == "Lapp/Thing;"))
        }
        _ => panic!("no class"),
    }
    assert_eq!(call(&mut w, "Ljava/lang/Object;", "getClass", vec![]), Ok(Value::Null));
    match call(&mut w, "Ljava/lang/Class;", "forName", vec![text("app.Thing")]) {
        Ok(Value::Object(class)) => {
            assert!(matches!(w.heap_object(class), Some(HeapObject::Class(s)) if s == "Lapp/Thing;"))
        }
        _ => panic!("no class"),
    }
    assert_eq!(
        call(&mut w, "Ljava/lang/Class;", "forName", vec![]),
        fault("framework argument 0 is not a string")
    );
}

#[test]
fn arrays_of_arrays_are_made() {
    let mut w = world();
    let class = w.allocate(HeapObject::Class("I".to_string()));
    let sizes = w.allocate(HeapObject::Array {
        component: "I".to_string(),
        values: vec![Value::Int(2), Value::Long(3)],
    });
    let array = "Ljava/lang/reflect/Array;";
    let r = call(&mut w, array, "newInstance", vec![Value::Object(class), Value::Object(sizes)]);
    let rows = match r {
        Ok(Value::Object(id)) => values_at(&w, id),
        _ => panic!("no array"),
    };
    assert_eq!(rows.len(), 2);
    match &rows[1] {
        Value::Object(id) => {
            assert_eq!(values_at(&w, *id), vec![Value::Int(0), Value::Int(0), Value::Int(0)])
        }
        _ => panic!("no row"),
    }
    match call(&mut w, array, "newInstance", vec![Value::Null, Value::Int(2)]) {
        Ok(Value::Object(id)) => assert_eq!(values_at(&w, id), vec![Value::Null, Value::Null]),
        _ => panic!("no array"),
    }
}

#[test]
fn events_and_views() {
    let mut w = world();
    let event = w.alloc_instance("Landroid/view/MotionEvent;");
    w.set_object_field(event, "action", Value::Int(0x0105));
    w.set_object_field(event, "x", single(3.5));
    let motion = "Landroid/view/MotionEvent;";
    let me = Value::Object(event);
    assert_eq!(call(&mut w, motion, "getAction", vec![me.clone()]), Ok(Value::Int(0x0105)));
    assert_eq!(call(&mut w, motion, "getActionMasked", vec![me.clone()]), Ok(Value::Int(5)));
    assert_eq!(call(&mut w, motion, "getActionIndex", vec![me.clone()]), Ok(Value::Int(1)));
    assert_eq!(call(&mut w, motion, "getX", vec![me.clone()]), Ok(single(3.5)));
    assert_eq!(call(&mut w, motion, "getY", vec![me.clone()]), Ok(single(0.0)));
    assert_eq!(call(&mut w, motion, "getPointerCount", vec![me]), Ok(Value::Int(1)));
    let view = w.alloc_instance("Landroid/view/View;");
    let listener = w.alloc_instance("Lapp/Listener;");
    let name = "Landroid/view/View;";
    let both = vec![Value::Object(view), Value::Object(listener)];
    assert_eq!(call(&mut w, name, "setOnTouchListener", both.clone()), Ok(Value::Void));
    assert_eq!(call(&mut w, name, "setOnClickListener", both.clone()), Ok(Value::Void));
    assert_eq!(w.touch_listeners, vec![(view, listener)]);
    assert_eq!(w.click_listeners, vec![(view, listener)]);
    assert_eq!(
        ask(&w, name, "getId", &vec![Value::Object(view)], &vec![]),
        Some(Query::ViewId(view))
    );
    assert_eq!(
        with(&mut w, name, "getId", vec![Value::Object(view)], vec![Answer::ViewId(Some(12))]),
        Ok(Value::Int(12))
    );
    assert_eq!(
        with(&mut w, name, "getId", vec![Value::Object(view)], vec![Answer::ViewId(None)]),
        Ok(Value::Int(-1))
    );
    assert_eq!(call(&mut w, "Landroid/widget/Button;", "getWidth", vec![]), Ok(Value::Int(320)));
    assert_eq!(call(&mut w, "Landroid/view/Display;", "getHeight", vec![]), Ok(Value::Int(480)));
    assert_eq!(call(&mut w, name, "addView", both), Ok(Value::Void));
    assert_eq!(
        w.effects,
        vec![
            Effect::EnsureView { view, class_name: "Landroid/view/ViewGroup;".to_string() },
            Effect::EnsureView { view: listener, class_name: "Landroid/view/View;".to_string() },
            Effect::AddChild { parent: view, child: listener },
        ]
    );
}

#[test]
fn a_player_plays() {
    let mut w = world();
    let media = "Landroid/media/MediaPlayer;";
    let player = match call(&mut w, media, "create", vec![]) {
        Ok(v) => v,
        Err(e) => panic!("{e}"),
    };
    assert_eq!(call(&mut w, media, "start", vec![player.clone()]), Ok(Value::Void));
    assert_eq!(call(&mut w, media, "isPlaying", vec![player.clone()]), Ok(Value::Int(1)));
    assert_eq!(
        call(&mut w, media, "seekTo", vec![player.clone(), Value::Int(-3)]),
        Ok(Value::Void)
    );
    assert_eq!(
        call(&mut w, media, "setLooping", vec![player.clone(), Value::Int(1)]),
        Ok(Value::Void)
    );
    assert_eq!(call(&mut w, media, "isLooping", vec![player.clone()]), Ok(Value::Int(1)));
    assert_eq!(
        call(&mut w, media, "seekTo", vec![player.clone(), Value::Int(900)]),
        Ok(Value::Void)
    );
    assert_eq!(
        call(&mut w, media, "getCurrentPosition", vec![player.clone()]),
        Ok(Value::Int(900))
    );
    assert_eq!(call(&mut w, media, "stop", vec![player.clone()]), Ok(Value::Void));
    assert_eq!(call(&mut w, media, "getCurrentPosition", vec![player.clone()]), Ok(Value::Int(0)));
    assert_eq!(call(&mut w, media, "release", vec![player.clone()]), Ok(Value::Void));
    assert_eq!(call(&mut w, media, "isLooping", vec![player]), Ok(Value::Int(0)));
    assert_eq!(call(&mut w, "Landroid/media/SoundPool;", "load", vec![]), Ok(Value::Int(1)));
    assert_eq!(call(&mut w, "Landroid/media/SoundPool;", "release", vec![]), Ok(Value::Void));
}

#[test]
fn files_are_found_and_deleted() {
    let mut w = world();
    let file = "Ljava/io/File;";
    let id = w.alloc_instance(file);
    w.set_object_field(id, "path", text("save.dat"));
    let me = Value::Object(id);
    assert_eq!(call(&mut w, file, "exists", vec![me.clone()]), Ok(Value::Int(1)));
    assert_eq!(call(&mut w, file, "length", vec![me.clone()]), Ok(Value::Long(3)));
    let r = call(&mut w, file, "getPath", vec![me.clone()]);
    assert_eq!(text_at(&w, r), "save.dat");
    assert_eq!(call(&mut w, file, "delete", vec![me.clone()]), Ok(Value::Int(1)));
    assert_eq!(call(&mut w, file, "delete", vec![me.clone()]), Ok(Value::Int(0)));
    assert_eq!(call(&mut w, file, "isFile", vec![me]), Ok(Value::Int(0)));
}

#[test]
fn a_random_number_follows_from_the_last() {
    let mut w = world();
    let random = "Ljava/util/Random;";
    let id = w.alloc_instance(random);
    let me = Value::Object(id);
    assert_eq!(call(&mut w, random, "<init>", vec![me.clone()]), Ok(Value::Void));
    let first = 1_664_525i32.wrapping_add(1_013_904_223);
    let second = first.wrapping_mul(1_664_525).wrapping_add(1_013_904_223);
    assert_eq!(
        call(&mut w, random, "nextInt", vec![me.clone(), Value::Int(100)]),
        Ok(Value::Int((first & i32::MAX) % 100))
    );
    assert_eq!(
        call(&mut w, random, "nextInt", vec![me.clone(), Value::Int(1000)]),
        Ok(Value::Int((second & i32::MAX) % 1000))
    );
    assert_eq!(
        call(&mut w, random, "nextInt", vec![me, Value::Int(-4)]),
        Ok(Value::Int(0))
    );
}

#[test]
fn numbers_are_formatted() {
    let mut w = world();
    let format = "Ljava/text/DecimalFormat;";
    let me = Value::Object(w.alloc_instance(format));
    assert_eq!(call(&mut w, format, "<init>", vec![me.clone(), text("0.00")]), Ok(Value::Void));
    assert_eq!(call(&mut w, format, "format", vec![me.clone(), Value::Int(7)]), Ok(text("7")));
    let args = vec![me, double(1.0)];
    assert_eq!(
        ask(&w, format, "format", &args, &vec![]),
        Some(Query::Number { number: double(1.0), style: Style::Fixed })
    );
    let r = with(&mut w, format, "format", args, vec![Answer::Text("1.00".to_string())]);
    assert_eq!(r, Ok(text("1.00")));
}

#[test]
fn the_small_classes_answer() {
    let mut w = world();
    assert_eq!(call(&mut w, "Ljava/io/PrintStream;", "println", vec![]), Ok(Value::Void));
    assert_eq!(call(&mut w, "Ljava/util/Locale;", "getCountry", vec![]), Ok(text("EN")));
    assert_eq!(call(&mut w, "Ljava/util/TimerTask;", "cancel", vec![]), Ok(Value::Int(0)));
    assert_eq!(call(&mut w, "Landroid/os/Message;", "obtain", vec![]), Ok(Value::Void));
    assert_eq!(call(&mut w, "Landroid/os/Handler;", "post", vec![]), Ok(Value::Int(1)));
    assert_eq!(
        call(&mut w, "Landroid/os/Handler;", "sendMessage", vec![]),
        fault("framework argument 0 is not an object")
    );
    let r = call(&mut w, "Landroid/hardware/SensorManager;", "getDefaultSensor", vec![]);
    assert_eq!(class_at(&w, r), "Landroid/hardware/Sensor;");
    let r = call(&mut w, "Landroid/graphics/Typeface;", "createFromAsset", vec![]);
    assert_eq!(class_at(&w, r), "Landroid/graphics/Typeface;");
    let r = call(&mut w, "Landroid/view/animation/AnimationUtils;", "loadAnimation", vec![]);
    assert_eq!(class_at(&w, r), "Landroid/view/animation/Animation;");
    assert_eq!(
        call(&mut w, "Landroid/view/animation/AnimationUtils;", "now", vec![]),
        Ok(Value::Null)
    );
    assert_eq!(
        call(&mut w, "Lother/Thing;", "go", vec![]),
        fault("framework method Lother/Thing;->go is not implemented")
    );
}

#[test]
fn a_service_is_made_once_whatever_it_is_called() {
    let context = "Landroid/content/Context;";
    // No text at all, and the number of the object that is about to be made.
    for name in [Value::Null, Value::Int(4), Value::Object(0), Value::Object(7)] {
        let mut w = world();
        let first = call(&mut w, context, "getSystemService", vec![Value::Null, name.clone()]);
        let objects = w.heap.len();
        let again = call(&mut w, context, "getSystemService", vec![Value::Null, name]);
        assert_eq!(first, again);
        assert_eq!(w.heap.len(), objects);
    }
}
