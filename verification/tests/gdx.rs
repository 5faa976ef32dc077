use dalvik_vm::color::Rgba8;
use dalvik_vm::gdx::dispatch::{ask, dispatch_gdx};
use dalvik_vm::gdx::sprites::draw_bounds;
use dalvik_vm::host::{Answer, Bounds, Corners, Effect, FrameworkResult, Function, Query, Region};
use dalvik_vm::value::{HeapObject, Value};
use dalvik_vm::world::{CanvasState, Framework, World};

/// A world in which object 0 is taken: a result that is object 0 is no object.
fn world() -> World {
    World {
        framework: Framework {
            surface_size: (320, 480),
            logs: vec![],
            preferences: vec![],
            files: vec![],
            system_services: vec![],
            content_views: vec![],
            media_players: vec![],
            surface_events: vec![],
            resource_strings: vec![],
            resource_images: vec![],
            gdx_view: None,
            gdx_listener: None,
            gdx_input: None,
            gdx_audio: None,
            gdx_files: None,
            gdx_graphics: None,
        },
        heap: vec![HeapObject::String(String::new())],
        canvas_stack: vec![],
        canvas_state: CanvasState::default(),
        touch_listeners: vec![],
        click_listeners: vec![],
        pending_activity: None,
        effects: vec![],
        frame_mode: false,
    }
}

fn single(n: f32) -> Value {
    Value::Float(n.to_bits())
}

fn text(s: &str) -> Value {
    Value::String(s.to_string())
}

fn bounds(x: f32, y: f32, width: f32, height: f32) -> Bounds {
    Bounds {
        x: x.to_bits(),
        y: y.to_bits(),
        width: width.to_bits(),
        height: height.to_bits(),
    }
}

fn white() -> Rgba8 {
    Rgba8 { r: 255, g: 255, b: 255, a: 255 }
}

fn after(
    w: &mut World,
    steps: usize,
    class_name: &str,
    method: &str,
    args: Vec<Value>,
    answers: Vec<Answer>,
) -> Result<Value, String> {
    match dispatch_gdx(w, steps, class_name, method, &args, &answers) {
        Ok(v) => Ok(v),
        Err(e) => Err(e.describe(&vec![])),
    }
}

fn call(w: &mut World, class_name: &str, method: &str, args: Vec<Value>) -> Result<Value, String> {
    after(w, 0, class_name, method, args, vec![])
}

fn fault(message: &str) -> Result<Value, String> {
    Err(format!("Dalvik VM error at pc 0 opcode 0x00: {message}"))
}

fn id_of(v: Result<Value, String>) -> u32 {
    match v {
        Ok(Value::Object(id)) => id,
        _ => panic!("no object"),
    }
}

const APPLICATION: &str = "Lcom/badlogic/gdx/backends/android/AndroidApplication;";
const SPRITE: &str = "Lcom/badlogic/gdx/graphics/g2d/Sprite;";
const BATCH: &str = "Lcom/badlogic/gdx/graphics/g2d/SpriteBatch;";
const GL10: &str = "Lcom/badlogic/gdx/graphics/GL10;";

#[test]
fn an_application_gets_a_surface() {
    let mut w = world();
    let listener = w.alloc_instance("Lapp/Game;");
    let args = vec![Value::Null, Value::Object(listener)];
    assert_eq!(
        ask(&w, APPLICATION, "initializeForView", &args, &vec![]),
        Some(Query::AllocView("Landroid/opengl/GLSurfaceView;".to_string()))
    );
    let r = after(&mut w, 0, APPLICATION, "initializeForView", args, vec![Answer::View(41)]);
    assert_eq!(r, Ok(Value::Object(41)));
    assert_eq!(w.framework.gdx_view, Some(41));
    assert_eq!(w.framework.gdx_listener, Some(listener));
    assert_eq!(w.framework.surface_events, vec!["created:41", "changed:41:0:320x480"]);
    let graphics = "Lcom/badlogic/gdx/backends/android/AndroidGraphics;";
    assert_eq!(ask(&w, graphics, "getView", &vec![], &vec![]), None);
    assert_eq!(call(&mut w, graphics, "getView", vec![]), Ok(Value::Object(41)));
}

#[test]
fn the_surroundings_show_a_content_view() {
    let mut w = world();
    let args = vec![Value::Object(3), Value::Object(4)];
    assert_eq!(
        ask(&w, APPLICATION, "setContentView", &args, &vec![]),
        Some(Query::SetContentView { activity: 3, view: 4 })
    );
    let done = Answer::Framework(Ok(FrameworkResult::Bool(true)));
    assert_eq!(
        after(&mut w, 0, APPLICATION, "setContentView", args.clone(), vec![done]),
        Ok(Value::Int(1))
    );
    let failed = Answer::Framework(Err("no such view".to_string()));
    assert_eq!(
        after(&mut w, 0, APPLICATION, "setContentView", args, vec![failed]),
        fault("no such view")
    );
    assert_eq!(
        call(&mut w, APPLICATION, "setContentView", vec![]),
        fault("framework argument 0 is not an object")
    );
}

#[test]
fn the_objects_of_the_application_are_made_the_first_time() {
    let mut w = world();
    let methods = ["getInput", "getAudio", "getFiles", "getGraphics"];
    for method in methods {
        let first = call(&mut w, APPLICATION, method, vec![]);
        assert!(matches!(first, Ok(Value::Object(_))));
        assert_eq!(call(&mut w, APPLICATION, method, vec![]), first);
    }
    assert_eq!(w.heap.len(), 5);
    assert_eq!(call(&mut w, "Lcom/badlogic/gdx/Application;", "getType", vec![]), Ok(Value::Null));
    assert_eq!(call(&mut w, "Lanything;", "<clinit>", vec![]), Ok(Value::Void));
    assert_eq!(
        call(&mut w, APPLICATION, "exit", vec![]),
        fault("GDX method Lcom/badlogic/gdx/backends/android/AndroidApplication;->exit is not implemented")
    );
    assert_eq!(
        call(&mut w, "Lcom/badlogic/gdx/ApplicationListener;", "render", vec![]),
        Ok(Value::Void)
    );
}

#[test]
fn the_screen_and_the_input_have_fixed_properties() {
    let mut w = world();
    let graphics = "Lcom/badlogic/gdx/Graphics;";
    assert_eq!(call(&mut w, graphics, "getWidth", vec![]), Ok(Value::Int(320)));
    assert_eq!(call(&mut w, graphics, "getHeight", vec![]), Ok(Value::Int(480)));
    assert_eq!(call(&mut w, graphics, "getDeltaTime", vec![]), Ok(single(1.0 / 60.0)));
    assert_eq!(call(&mut w, graphics, "getFramesPerSecond", vec![]), Ok(Value::Int(60)));
    let input = "Lcom/badlogic/gdx/Input;";
    assert_eq!(call(&mut w, input, "isTouched", vec![]), Ok(Value::Int(0)));
    assert_eq!(call(&mut w, input, "setInputProcessor", vec![]), Ok(Value::Void));
    assert_eq!(call(&mut w, input, "getCurrentEventTime", vec![]), Ok(Value::Long(0)));
    assert_eq!(
        call(&mut w, "Lcom/badlogic/gdx/audio/Sound;", "play", vec![]),
        Ok(Value::Long(0))
    );
    assert_eq!(
        call(&mut w, "Lcom/badlogic/gdx/audio/Music;", "isPlaying", vec![]),
        Ok(Value::Int(0))
    );
    assert_eq!(
        call(&mut w, "Lcom/badlogic/gdx/Preferences;", "getString", vec![]),
        Ok(text(""))
    );
}

#[test]
fn a_file_is_read() {
    let mut w = world();
    let r = call(&mut w, "Lcom/badlogic/gdx/Files;", "internal", vec![Value::Null, text("a.txt")]);
    let handle = vec![Value::Object(id_of(r))];
    let name = "Lcom/badlogic/gdx/files/FileHandle;";
    assert_eq!(
        ask(&w, name, "readString", &handle, &vec![]),
        Some(Query::Bytes("a.txt".to_string()))
    );
    let bytes = || vec![Answer::Bytes(Some(vec![0x68, 0xff, 0x69]))];
    // A byte that is no text is replaced.
    assert_eq!(
        after(&mut w, 0, name, "readString", handle.clone(), bytes()),
        Ok(text("h\u{fffd}i"))
    );
    let written = vec![Answer::Bytes(Some("h\u{e9}llo".as_bytes().to_vec()))];
    assert_eq!(
        after(&mut w, 0, name, "readString", handle.clone(), written),
        Ok(text("h\u{e9}llo"))
    );
    assert_eq!(after(&mut w, 0, name, "exists", handle.clone(), bytes()), Ok(Value::Int(1)));
    assert_eq!(after(&mut w, 0, name, "length", handle.clone(), bytes()), Ok(Value::Long(3)));
    let array = id_of(after(&mut w, 0, name, "readBytes", handle.clone(), bytes()));
    match w.heap_object(array) {
        Some(HeapObject::Array { component, values }) => {
            assert_eq!(component, "B");
            assert_eq!(values, &vec![Value::Int(0x68), Value::Int(0xff), Value::Int(0x69)]);
        }
        _ => panic!("no array"),
    }
    let none = || vec![Answer::Bytes(None)];
    assert_eq!(after(&mut w, 0, name, "exists", handle.clone(), none()), Ok(Value::Int(0)));
    assert_eq!(after(&mut w, 0, name, "readBytes", handle.clone(), none()), Ok(Value::Null));
    assert_eq!(after(&mut w, 0, name, "readString", handle, none()), Ok(text("")));
    assert_eq!(ask(&w, name, "exists", &vec![], &vec![]), None);
    assert_eq!(
        call(&mut w, "Lcom/badlogic/gdx/Files;", "local", vec![Value::Null, Value::Int(1)]),
        fault("framework argument 0 is not a string")
    );
}

#[test]
fn drawing_commands_go_out() {
    let mut w = world();
    let one = vec![Value::Null, single(1.0), single(0.5), single(-1.0), single(2.0)];
    assert_eq!(call(&mut w, GL10, "glClearColor", one), Ok(Value::Void));
    assert_eq!(
        call(&mut w, GL10, "glClear", vec![Value::Null, Value::Int(0x4000)]),
        Ok(Value::Void)
    );
    assert_eq!(
        call(&mut w, GL10, "glEnable", vec![Value::Null, Value::Int(-1)]),
        Ok(Value::Void)
    );
    assert_eq!(
        call(&mut w, GL10, "glBindTexture", vec![Value::Null, Value::Int(1), Value::Int(2)]),
        Ok(Value::Void)
    );
    let port = vec![Value::Null, Value::Int(-5), Value::Int(6), Value::Int(-7), Value::Int(8)];
    assert_eq!(call(&mut w, GL10, "glViewport", port), Ok(Value::Void));
    let draw = vec![Value::Null, Value::Int(4), Value::Int(-3), Value::Int(-2)];
    assert_eq!(call(&mut w, GL10, "glDrawArrays", draw.clone()), Ok(Value::Void));
    assert_eq!(call(&mut w, GL10, "glDrawElements", draw), Ok(Value::Void));
    assert_eq!(
        w.effects,
        vec![
            Effect::ClearColor(Rgba8 { r: 255, g: 127, b: 0, a: 255 }),
            Effect::Clear(0x4000),
            Effect::Enable(0xffff_ffff),
            Effect::BindTexture(1, 2),
            Effect::Viewport(-5, 6, 0, 8),
            Effect::DrawArrays(4, -3, -2),
            Effect::DrawElements(4, -3, 0xffff_fffe),
        ]
    );
    assert_eq!(
        call(&mut w, GL10, "glGetString", vec![]),
        Ok(text("DonutHLE GLES 1.0 software renderer"))
    );
    assert_eq!(call(&mut w, GL10, "glVertexPointer", vec![]), Ok(Value::Void));
    let common = "Lcom/badlogic/gdx/graphics/GLCommon;";
    assert_eq!(call(&mut w, common, "glScissor", vec![]), Ok(Value::Void));
    assert_eq!(
        call(&mut w, common, "glVertexPointer", vec![]),
        fault("GDX method Lcom/badlogic/gdx/graphics/GLCommon;->glVertexPointer is not implemented")
    );
    assert_eq!(
        call(&mut w, GL10, "glClear", vec![Value::Null]),
        fault("framework argument 1 is not an integer")
    );
}

#[test]
fn chance_follows_from_the_steps() {
    let mut w = world();
    let utils = "Lcom/badlogic/gdx/math/MathUtils;";
    let both = vec![Value::Int(5), Value::Int(3)];
    assert_eq!(after(&mut w, 7, utils, "random", both, vec![]), Ok(Value::Int(4)));
    let wide = vec![single(0.0), single(1000.0)];
    assert_eq!(after(&mut w, 250, utils, "random", wide, vec![]), Ok(Value::Int(250)));
    assert_eq!(
        after(&mut w, 1, utils, "random", vec![], vec![]),
        Ok(Value::Int(1103515245i32.wrapping_add(12345) & 0x7fff))
    );
    assert_eq!(after(&mut w, 2, utils, "randomBoolean", vec![], vec![]), Ok(Value::Int(1)));
    assert_eq!(after(&mut w, 3, utils, "randomBoolean", vec![], vec![]), Ok(Value::Int(0)));
    assert_eq!(call(&mut w, utils, "round", vec![single(1.5)]), Ok(Value::Int(2)));
    assert_eq!(
        ask(&w, utils, "sin", &vec![single(1.0)], &vec![]),
        Some(Query::Single { function: Function::Sin, single: 1.0f32.to_bits() })
    );
    let r = after(&mut w, 0, utils, "sin", vec![single(1.0)], vec![Answer::Single(0x8000_0001)]);
    assert_eq!(r, Ok(Value::Int(0x8000_0001u32 as i32)));
    let vector = "Lcom/badlogic/gdx/math/Vector3;";
    let set = vec![Value::Object(6), single(1.0), single(2.0), Value::Int(3)];
    assert_eq!(call(&mut w, vector, "set", set), Ok(Value::Object(6)));
    assert_eq!(
        call(&mut w, vector, "set", vec![Value::Object(6), single(1.0), text("low")]),
        fault("framework argument 2 is not numeric")
    );
    assert_eq!(call(&mut w, vector, "set", vec![]), Ok(Value::Void));
}

#[test]
fn a_region_of_an_atlas_is_found() {
    let mut w = world();
    let name = "Lcom/badlogic/gdx/graphics/g2d/TextureAtlas;";
    let atlas = w.alloc_instance(name);
    let r = call(&mut w, name, "<init>", vec![Value::Object(atlas), text("pack")]);
    assert_eq!(r, Ok(Value::Void));
    let args = vec![Value::Object(atlas), text("hero")];
    assert_eq!(
        ask(&w, name, "findRegion", &args, &vec![]),
        Some(Query::Region { atlas: "pack".to_string(), name: "hero".to_string() })
    );
    let region = Region { page: "pack.png".to_string(), x: 1, y: 2, width: 30, height: 40 };
    let answer = vec![Answer::Region(Some(region))];
    let found = id_of(after(&mut w, 0, name, "findRegion", args, answer));
    let regions = "Lcom/badlogic/gdx/graphics/g2d/TextureAtlas$AtlasRegion;";
    assert_eq!(w.class_name(found), Some(regions));
    let me = vec![Value::Object(found)];
    assert_eq!(call(&mut w, regions, "getRegionWidth", me.clone()), Ok(Value::Int(30)));
    assert_eq!(call(&mut w, regions, "getRegionX", me.clone()), Ok(Value::Int(1)));
    let made = vec![Value::Null, Value::Object(found)];
    let sprite = id_of(call(&mut w, name, "createSprite", made));
    assert_eq!(
        call(&mut w, SPRITE, "getWidth", vec![Value::Object(sprite)]),
        Ok(single(30.0))
    );
    assert_eq!(w.object_field_string(sprite, "asset_path"), Some("pack.png".to_string()));
}

#[test]
fn a_texture_has_the_size_of_its_image() {
    let mut w = world();
    let name = "Lcom/badlogic/gdx/graphics/Texture;";
    let texture = w.alloc_instance(name);
    let me = vec![Value::Object(texture)];
    assert_eq!(
        call(&mut w, name, "getWidth", me.clone()),
        fault("Texture dimensions unavailable: asset was not found or could not be decoded")
    );
    let r = call(&mut w, name, "<init>", vec![Value::Object(texture), text("a.png")]);
    assert_eq!(r, Ok(Value::Void));
    assert_eq!(
        ask(&w, name, "getHeight", &me, &vec![]),
        Some(Query::ImageSize("a.png".to_string()))
    );
    let size = || vec![Answer::Size(Some((64, 32)))];
    assert_eq!(after(&mut w, 0, name, "getWidth", me.clone(), size()), Ok(Value::Int(64)));
    assert_eq!(after(&mut w, 0, name, "getHeight", me, size()), Ok(Value::Int(32)));
    let regions = "Lcom/badlogic/gdx/graphics/g2d/TextureRegion;";
    let region = w.alloc_instance(regions);
    let args = vec![Value::Object(region), Value::Object(texture)];
    assert_eq!(
        ask(&w, regions, "<init>", &args, &vec![]),
        Some(Query::ImageSize("a.png".to_string()))
    );
    assert_eq!(after(&mut w, 0, regions, "<init>", args, size()), Ok(Value::Void));
    assert_eq!(
        call(&mut w, regions, "getRegionWidth", vec![Value::Object(region)]),
        Ok(Value::Int(64))
    );
}

#[test]
fn a_sprite_keeps_its_place() {
    let mut w = world();
    let sprite = w.alloc_instance(SPRITE);
    let me = Value::Object(sprite);
    let r = call(
        &mut w,
        SPRITE,
        "setBounds",
        vec![me.clone(), single(1.0), Value::Int(2), single(3.0), single(4.0)],
    );
    assert_eq!(r, Ok(Value::Void));
    assert_eq!(call(&mut w, SPRITE, "getX", vec![me.clone()]), Ok(single(1.0)));
    assert_eq!(call(&mut w, SPRITE, "getY", vec![me.clone()]), Ok(single(2.0)));
    assert_eq!(call(&mut w, SPRITE, "getHeight", vec![me.clone()]), Ok(single(4.0)));
    assert_eq!(call(&mut w, SPRITE, "getScaleX", vec![me.clone()]), Ok(single(1.0)));
    // What comes before a bad argument is set.
    assert_eq!(
        call(&mut w, SPRITE, "setPosition", vec![me.clone(), single(9.0), text("low")]),
        fault("framework argument 2 is not numeric")
    );
    assert_eq!(call(&mut w, SPRITE, "getX", vec![me.clone()]), Ok(single(9.0)));
    assert_eq!(call(&mut w, SPRITE, "getY", vec![me.clone()]), Ok(single(2.0)));
    w.set_object_field(sprite, "region_width", Value::Int(10));
    w.set_object_field(sprite, "region_height", Value::Int(20));
    assert_eq!(
        call(&mut w, SPRITE, "setScale", vec![me.clone(), single(-2.0), single(0.5)]),
        Ok(Value::Void)
    );
    assert_eq!(call(&mut w, SPRITE, "getWidth", vec![me.clone()]), Ok(single(20.0)));
    assert_eq!(call(&mut w, SPRITE, "getHeight", vec![me.clone()]), Ok(single(10.0)));
    assert_eq!(call(&mut w, SPRITE, "getScaleX", vec![me]), Ok(single(-2.0)));
}

#[test]
fn a_sprite_is_drawn() {
    let mut w = world();
    let sprite = w.alloc_instance(SPRITE);
    let me = vec![Value::Object(sprite), Value::Null];
    // Without an image nothing is drawn.
    assert_eq!(ask(&w, SPRITE, "draw", &me, &vec![]), None);
    assert_eq!(call(&mut w, SPRITE, "draw", me.clone()), Ok(Value::Void));
    assert_eq!(w.effects, vec![]);
    w.set_object_field(sprite, "asset_path", text("pack.png"));
    w.set_object_field(sprite, "region_x", Value::Int(16));
    w.set_object_field(sprite, "region_y", Value::Int(0));
    w.set_object_field(sprite, "region_width", Value::Int(16));
    w.set_object_field(sprite, "region_height", Value::Int(32));
    w.set_object_field(sprite, "x", single(5.0));
    w.set_object_field(sprite, "y", single(6.0));
    let args = vec![Value::Object(sprite), single(1.0), single(0.0), single(0.0), single(1.0)];
    assert_eq!(call(&mut w, SPRITE, "setColor", args), Ok(Value::Void));
    assert_eq!(
        ask(&w, SPRITE, "draw", &me, &vec![]),
        Some(Query::Image("pack.png".to_string()))
    );
    let size = vec![Answer::Size(Some((64, 32)))];
    assert_eq!(after(&mut w, 0, SPRITE, "draw", me, size), Ok(Value::Void));
    assert_eq!(
        w.effects,
        vec![
            Effect::UploadImage("pack.png".to_string()),
            Effect::DrawRegion {
                bounds: bounds(5.0, 6.0, 16.0, 32.0),
                corners: Corners {
                    left: 0.25f32.to_bits(),
                    top: 0,
                    right: 0.5f32.to_bits(),
                    bottom: 1.0f32.to_bits(),
                },
                color: Rgba8 { r: 255, g: 0, b: 0, a: 255 },
            },
        ]
    );
}

#[test]
fn a_batch_draws_a_texture() {
    let mut w = world();
    let batch = w.alloc_instance(BATCH);
    let texture = w.alloc_instance("Lcom/badlogic/gdx/graphics/Texture;");
    w.set_object_field(texture, "path", text("a.png"));
    let args = vec![Value::Object(batch), Value::Object(texture), single(7.0), single(8.0)];
    assert_eq!(
        ask(&w, BATCH, "draw", &args, &vec![]),
        Some(Query::ImageSize("a.png".to_string()))
    );
    let sized = vec![Answer::Size(Some((64, 32)))];
    assert_eq!(
        ask(&w, BATCH, "draw", &args, &sized),
        Some(Query::Image("a.png".to_string()))
    );
    let both = vec![Answer::Size(Some((64, 32))), Answer::Size(Some((64, 32)))];
    assert_eq!(ask(&w, BATCH, "draw", &args, &both), None);
    assert_eq!(after(&mut w, 0, BATCH, "draw", args.clone(), both), Ok(Value::Void));
    assert_eq!(
        w.effects,
        vec![
            Effect::UploadImage("a.png".to_string()),
            Effect::DrawTexture { bounds: bounds(7.0, 8.0, 64.0, 32.0), color: white() },
        ]
    );
    // An image that cannot be drawn is a plain rectangle.
    w.effects.clear();
    let missing = vec![Answer::Size(None), Answer::Size(None)];
    assert_eq!(after(&mut w, 0, BATCH, "draw", args, missing), Ok(Value::Void));
    assert_eq!(
        w.effects,
        vec![Effect::DrawQuad {
            bounds: bounds(7.0, 8.0, 1.0, 1.0),
            color: Rgba8 { r: 220, g: 235, b: 240, a: 255 },
        }]
    );
}

#[test]
fn a_batch_draws_with_all_parameters() {
    let mut w = world();
    let batch = w.alloc_instance(BATCH);
    let texture = w.alloc_instance("Lcom/badlogic/gdx/graphics/Texture;");
    w.set_object_field(texture, "path", text("a.png"));
    let mut args = vec![Value::Object(batch), Value::Object(texture)];
    for n in [1.0, 2.0, 0.0, 0.0, 3.0, 4.0, 1.0, 1.0] {
        args.push(single(n));
    }
    assert_eq!(
        ask(&w, BATCH, "draw", &args, &vec![]),
        Some(Query::Image("a.png".to_string()))
    );
    let size = vec![Answer::Size(Some((64, 32)))];
    assert_eq!(after(&mut w, 0, BATCH, "draw", args.clone(), size), Ok(Value::Void));
    assert_eq!(
        w.effects[1],
        Effect::DrawTexture { bounds: bounds(1.0, 2.0, 3.0, 4.0), color: white() }
    );
    args[6] = text("wide");
    assert_eq!(
        call(&mut w, BATCH, "draw", args),
        fault("framework argument 6 is not numeric")
    );
}

#[test]
fn nothing_is_drawn_smaller_than_one() {
    for n in [0.25f32, 0.0, -0.0, -5.0, f32::NAN, f32::NEG_INFINITY, f32::MIN_POSITIVE] {
        let mut w = world();
        let batch = w.alloc_instance(BATCH);
        let texture = w.alloc_instance("Lcom/badlogic/gdx/graphics/Texture;");
        w.set_object_field(texture, "path", text("a.png"));
        let args = vec![
            Value::Object(batch),
            Value::Object(texture),
            single(7.0),
            single(8.0),
            single(n),
            single(n),
        ];
        let mut answers = vec![];
        while ask(&w, BATCH, "draw", &args, &answers).is_some() {
            answers.push(Answer::Size(None));
        }
        assert_eq!(after(&mut w, 0, BATCH, "draw", args, answers), Ok(Value::Void));
        let drawn: Vec<Bounds> = w
            .effects
            .iter()
            .filter_map(|e| match e {
                Effect::DrawQuad { bounds, .. } => Some(*bounds),
                Effect::DrawTexture { bounds, .. } => Some(*bounds),
                Effect::DrawRegion { bounds, .. } => Some(*bounds),
                _ => None,
            })
            .collect();
        assert_eq!(drawn, vec![bounds(7.0, 8.0, 1.0, 1.0)]);
    }
}

#[test]
fn bounds_are_given_for_all_arguments() {
    let w = world();
    assert_eq!(draw_bounds(&w, &vec![], None), bounds(0.0, 0.0, 1.0, 1.0));
    let odd = vec![Value::Object(9), text("a"), Value::Null, Value::Void, single(f32::NAN)];
    assert_eq!(draw_bounds(&w, &odd, Some((0, 0))), bounds(0.0, 0.0, 1.0, 1.0));
    let wide = vec![
        Value::Null,
        Value::Null,
        Value::Int(-3),
        single(2.5),
        single(f32::INFINITY),
        Value::Int(40),
    ];
    assert_eq!(draw_bounds(&w, &wide, None), bounds(-3.0, 2.5, f32::INFINITY, 40.0));
}
