use dalvik_vm::dex::{ClassDef, CodeItem, DexFile, FieldId, Method};
use dalvik_vm::error::read_message;
use dalvik_vm::host::{Answer, Effect, Query};
use dalvik_vm::machine::{Vm, VmConfig};
use dalvik_vm::value::{HeapObject, Value};
use dalvik_vm::vm::Resumed;
use dalvik_vm::world::Framework;

fn framework() -> Framework {
    Framework {
        surface_size: (320, 480),
        logs: vec![],
        preferences: vec![],
        files: vec![],
        system_services: vec![],
        content_views: vec![],
        media_players: vec![],
        surface_events: vec![],
        resource_strings: vec![],
        resource_images: vec![],
        gdx_view: None,
        gdx_listener: None,
        gdx_input: None,
        gdx_audio: None,
        gdx_files: None,
        gdx_graphics: None,
    }
}

fn coded(class_name: &str, name: &str, registers_size: u16, ins_size: u16, words: Vec<u16>) -> Method {
    Method {
        class_name: class_name.to_string(),
        name: name.to_string(),
        prototype: "()V".to_string(),
        code: Some(CodeItem { registers_size, ins_size, instructions: words }),
        access_flags: None,
        framework_owner: None,
    }
}

fn uncoded(class_name: &str, name: &str) -> Method {
    Method {
        class_name: class_name.to_string(),
        name: name.to_string(),
        prototype: "()V".to_string(),
        code: None,
        access_flags: None,
        framework_owner: None,
    }
}

fn field(class_name: &str, name: &str, descriptor: &str) -> FieldId {
    FieldId {
        class_name: class_name.to_string(),
        name: name.to_string(),
        descriptor: descriptor.to_string(),
    }
}

fn program(methods: Vec<Method>) -> DexFile {
    DexFile {
        strings: vec![],
        types: vec!["Lapp/Thing;".to_string()],
        methods,
        fields: vec![
            field("Lapp/Other;", "shared", "I"),
            field("Lapp/Build;", "MODEL", "Ljava/lang/String;"),
            field("Lapp/Screen;", "width", "F"),
        ],
        classes: vec![ClassDef {
            name: "Lapp/Child;".to_string(),
            super_class: Some("Lapp/Parent;".to_string()),
        }],
    }
}

fn described(r: Option<Result<Value, dalvik_vm::error::VmError>>) -> Result<Value, String> {
    match r {
        Some(Ok(v)) => Ok(v),
        Some(Err(e)) => Err(e.describe(&vec![])),
        None => panic!("the machine asks"),
    }
}

#[test]
fn a_call_gives_its_result_back() {
    let dex = program(vec![
        // invoke-static m1(v1); move-result v0; return v0
        coded("Lapp/Main;", "main", 2, 1, vec![0x1071, 1, 0x0001, 0x000a, 0x000f]),
        // return v0 + v0
        coded("Lapp/Main;", "twice", 2, 1, vec![0x0090, 0x0101, 0x000f]),
    ]);
    let mut vm = Vm::new(&dex, framework(), VmConfig::default());
    assert_eq!(described(vm.run_method(0, vec![Value::Int(21)])), Ok(Value::Int(42)));
    assert!(vm.question().is_none());
}

#[test]
fn an_error_names_every_method_on_its_way() {
    let dex = program(vec![
        coded("Lapp/Main;", "main", 1, 0, vec![0x0071, 1, 0, 0x000e]),
        coded("Lapp/Main;", "inner", 1, 0, vec![0x0027]),
    ]);
    let mut vm = Vm::new(&dex, framework(), VmConfig::default());
    assert_eq!(
        described(vm.run_named_method("Lapp/Main;", "main", vec![])),
        Err("Dalvik VM error at pc 0 opcode 0x27: throw is not implemented in Lapp/Main;->inner in Lapp/Main;->main".to_string())
    );
}

#[test]
fn a_missing_method_is_reported() {
    let dex = program(vec![]);
    let mut vm = Vm::new(&dex, framework(), VmConfig::default());
    assert_eq!(
        described(vm.run_named_method("Lapp/Main;", "main", vec![])),
        Err("Dalvik VM error at pc 0 opcode 0x00: method Lapp/Main;->main not found".to_string())
    );
    assert_eq!(
        described(vm.run_method(3, vec![])),
        Err("Dalvik VM error at pc 0 opcode 0x00: method index 3 is invalid".to_string())
    );
    let id = vm.alloc_string("no instance");
    assert_eq!(
        described(vm.run_instance_method(id, "run", vec![])),
        Err("Dalvik VM error at pc 0 opcode 0x00: listener is not an object instance".to_string())
    );
}

#[test]
fn a_prototype_tells_methods_apart() {
    let mut other = coded("Lapp/Main;", "main", 1, 0, vec![0x2012, 0x000f]);
    other.prototype = "(I)V".to_string();
    let dex = program(vec![coded("Lapp/Main;", "main", 1, 0, vec![0x1012, 0x000f]), other]);
    let mut vm = Vm::new(&dex, framework(), VmConfig::default());
    let r = vm.run_named_method_with_prototype("Lapp/Main;", "main", Some("(I)V"), vec![]);
    assert_eq!(described(r), Ok(Value::Int(2)));
    let r = vm.run_named_method_with_prototype("Lapp/Main;", "main", None, vec![]);
    assert_eq!(described(r), Ok(Value::Int(1)));
}

#[test]
fn calls_are_not_nested_too_deeply() {
    let dex = program(vec![coded("Lapp/Main;", "main", 1, 0, vec![0x0071, 0, 0, 0x000e])]);
    let config = VmConfig { max_steps: 1000, max_call_depth: 3, trace_registers: false };
    let mut vm = Vm::new(&dex, framework(), config);
    assert_eq!(
        described(vm.run_method(0, vec![])),
        Err("Dalvik VM error at pc 0 opcode 0x00: maximum call depth exceeded in Lapp/Main;->main in Lapp/Main;->main in Lapp/Main;->main".to_string())
    );
}

#[test]
fn instructions_are_limited() {
    let dex = program(vec![coded("Lapp/Main;", "main", 1, 0, vec![0x0000, 0xff28])]);
    let config = VmConfig { max_steps: 11, max_call_depth: 3, trace_registers: false };
    let mut vm = Vm::new(&dex, framework(), config);
    assert_eq!(
        described(vm.run_method(0, vec![])),
        Err("Dalvik VM error at pc 1 opcode 0x00: instruction limit exceeded in Lapp/Main;->main".to_string())
    );
}

#[test]
fn a_class_is_initialised_once_before_it_is_used() {
    let dex = program(vec![
        // main reads the static field twice
        coded("Lapp/Main;", "main", 2, 0, vec![0x0060, 0, 0x0160, 0, 0x10b0, 0x000f]),
        // the initialiser adds one to it, from 20
        coded(
            "Lapp/Other;",
            "<clinit>",
            2,
            0,
            vec![0x0013, 20, 0x0160, 0, 0x10b0, 0x00d8, 0x0100, 0x0067, 0, 0x000e],
        ),
    ]);
    let mut vm = Vm::new(&dex, framework(), VmConfig::default());
    assert_eq!(described(vm.run_method(0, vec![])), Ok(Value::Int(42)));
}

#[test]
fn a_failing_initialiser_fails_the_call() {
    let dex = program(vec![
        coded("Lapp/Main;", "main", 1, 0, vec![0x0071, 1, 0, 0x000e]),
        coded("Lapp/Other;", "call", 1, 0, vec![0x000e]),
        coded("Lapp/Other;", "<clinit>", 1, 0, vec![0x0027]),
    ]);
    let mut vm = Vm::new(&dex, framework(), VmConfig::default());
    assert_eq!(
        described(vm.run_method(0, vec![])),
        Err("Dalvik VM error at pc 0 opcode 0x27: throw is not implemented in Lapp/Other;-><clinit> in Lapp/Main;->main".to_string())
    );
    // The class counts as initialised all the same.
    assert_eq!(described(vm.run_method(0, vec![])), Ok(Value::Void));
}

#[test]
fn static_fields_have_values_of_their_own() {
    let dex = program(vec![
        coded("Lapp/Main;", "model", 1, 0, vec![0x0062, 1, 0x0011]),
        coded("Lapp/Main;", "width", 1, 0, vec![0x0060, 2, 0x000f]),
        coded("Lapp/Main;", "nowhere", 1, 0, vec![0x0060, 9, 0x000f]),
        coded("Lapp/Main;", "written", 1, 1, vec![0x0067, 2, 0x0060, 2, 0x000f]),
    ]);
    let mut narrow = framework();
    narrow.surface_size = (100, 100);
    let mut vm = Vm::new(&dex, narrow, VmConfig::default());
    assert_eq!(described(vm.run_method(0, vec![])), Ok(Value::String("DonutHLE Linux".to_string())));
    assert_eq!(described(vm.run_method(1, vec![])), Ok(Value::Float(320.0f32.to_bits())));
    assert_eq!(described(vm.run_method(2, vec![])), Ok(Value::Null));
    assert_eq!(described(vm.run_method(3, vec![Value::Int(5)])), Ok(Value::Int(5)));
    assert_eq!(described(vm.run_method(1, vec![])), Ok(Value::Int(5)));
}

#[test]
fn a_virtual_call_runs_the_method_of_the_object() {
    let dex = program(vec![
        coded("Lapp/Main;", "main", 2, 1, vec![0x106e, 1, 0x0001, 0x000a, 0x000f]),
        coded("Lapp/Base;", "answer", 2, 1, vec![0x1012, 0x000f]),
        coded("Lapp/Parent;", "answer", 2, 1, vec![0x2012, 0x000f]),
    ]);
    let mut vm = Vm::new(&dex, framework(), VmConfig::default());
    let child = vm.alloc_instance("Lapp/Child;");
    let stranger = vm.alloc_instance("Lapp/Stranger;");
    assert_eq!(described(vm.run_method(0, vec![Value::Object(child)])), Ok(Value::Int(2)));
    assert_eq!(described(vm.run_method(0, vec![Value::Object(stranger)])), Ok(Value::Int(1)));
    assert_eq!(described(vm.run_instance_method(child, "answer", vec![])), Ok(Value::Int(2)));
    assert!(!vm.has_instance_method(child, "answer"));
}

#[test]
fn a_method_without_code_is_not_run() {
    let mut native = uncoded("Lapp/Main;", "native");
    native.access_flags = Some(0x0100);
    let dex = program(vec![uncoded("Lapp/Main;", "plain"), native]);
    let mut vm = Vm::new(&dex, framework(), VmConfig::default());
    assert_eq!(
        described(vm.run_method(0, vec![])),
        Err("Dalvik VM error at pc 0 opcode 0x00: method plain has no code (abstract/native methods are not executable)".to_string())
    );
    assert_eq!(described(vm.run_method(1, vec![])), Ok(Value::Void));
}

#[test]
fn the_framework_answers_for_its_classes() {
    let mut owned = uncoded("Lapp/Main;", "getResources");
    owned.framework_owner = Some("Landroid/content/Intent;".to_string());
    let dex = program(vec![
        uncoded("Landroid/content/Intent;", "getFlags"),
        uncoded("Ljava/lang/Unknown;", "call"),
        uncoded("Lcom/mobclix/Ads;", "show"),
        uncoded("Lcom/badlogic/gdx/math/Vector2;", "<init>"),
        uncoded("Lcom/badlogic/gdx/Nothing;", "call"),
        uncoded("Lcom/hyperkani/common/Layer;", "update"),
        owned,
    ]);
    let mut vm = Vm::new(&dex, framework(), VmConfig::default());
    let intent = vm.alloc_instance("Landroid/content/Intent;");
    assert_eq!(described(vm.run_method(0, vec![Value::Object(intent)])), Ok(Value::Int(0)));
    assert_eq!(
        described(vm.run_method(0, vec![])),
        Err("Dalvik VM error at pc 0 opcode 0x00: framework argument 0 is not an object while dispatching Landroid/content/Intent;->getFlags".to_string())
    );
    assert_eq!(
        described(vm.run_method(1, vec![])),
        Err("Dalvik VM error at pc 0 opcode 0x00: framework method Ljava/lang/Unknown;->call is not implemented while dispatching Ljava/lang/Unknown;->call".to_string())
    );
    assert_eq!(described(vm.run_method(2, vec![])), Ok(Value::Void));
    assert_eq!(described(vm.run_method(3, vec![])), Ok(Value::Void));
    assert_eq!(
        described(vm.run_method(4, vec![])),
        Err("Dalvik VM error at pc 0 opcode 0x00: GDX method Lcom/badlogic/gdx/Nothing;->call is not implemented".to_string())
    );
    assert_eq!(described(vm.run_method(5, vec![])), Ok(Value::Void));
    assert_eq!(
        described(vm.run_method(6, vec![])),
        Err("Dalvik VM error at pc 0 opcode 0x00: framework argument 0 is not an object".to_string())
    );
}

#[test]
fn a_machine_asks_and_goes_on_with_the_answer() {
    let dex = program(vec![
        // nanoTime; move-result-wide v0; return-wide v0
        coded("Lapp/Main;", "main", 2, 0, vec![0x0071, 1, 0, 0x000b, 0x0010]),
        uncoded("Ljava/lang/System;", "nanoTime"),
    ]);
    let mut vm = Vm::new(&dex, framework(), VmConfig::default());
    assert!(vm.run_method(0, vec![]).is_none());
    assert_eq!(vm.question(), Some(&Query::Nanoseconds));
    // What is no answer to the question is handed back.
    match vm.resume(Answer::Text("soon".to_string())) {
        Resumed::Refused(Answer::Text(s)) => assert_eq!(s, "soon"),
        _ => panic!("taken"),
    }
    assert_eq!(vm.question(), Some(&Query::Nanoseconds));
    match vm.resume(Answer::Nanoseconds(1234)) {
        Resumed::Ran(r) => assert_eq!(described(r), Ok(Value::Long(1234))),
        _ => panic!("refused"),
    }
    assert!(vm.question().is_none());
    assert!(matches!(vm.resume(Answer::Nanoseconds(1)), Resumed::Refused(_)));
}

#[test]
fn a_timer_runs_its_task() {
    let dex = program(vec![
        uncoded("Ljava/util/Timer;", "schedule"),
        // the task writes the shared field
        coded("Lapp/Task;", "run", 2, 1, vec![0x7012, 0x0067, 0, 0x000e]),
        coded("Lapp/Main;", "read", 1, 0, vec![0x0060, 0, 0x000f]),
    ]);
    let mut vm = Vm::new(&dex, framework(), VmConfig::default());
    let timer = vm.alloc_instance("Ljava/util/Timer;");
    let task = vm.alloc_instance("Lapp/Task;");
    let r = vm.run_method(0, vec![Value::Object(timer), Value::Object(task)]);
    assert_eq!(described(r), Ok(Value::Void));
    assert_eq!(described(vm.run_method(2, vec![])), Ok(Value::Int(7)));
}

#[test]
fn a_handler_gets_its_message() {
    let dex = program(vec![
        uncoded("Landroid/os/Handler;", "sendMessage"),
        coded("Lapp/Handler;", "handleMessage", 2, 2, vec![0x0167, 0, 0x000e]),
        coded("Lapp/Main;", "read", 1, 0, vec![0x0060, 0, 0x000f]),
    ]);
    let mut vm = Vm::new(&dex, framework(), VmConfig::default());
    let handler = vm.alloc_instance("Lapp/Handler;");
    let r = vm.run_method(0, vec![Value::Object(handler), Value::Int(9)]);
    assert_eq!(described(r), Ok(Value::Int(1)));
    assert_eq!(described(vm.run_method(2, vec![])), Ok(Value::Int(9)));
    let nobody = vm.alloc_instance("Lapp/Nobody;");
    assert_eq!(
        described(vm.run_method(0, vec![Value::Object(nobody)])),
        Err("Dalvik VM error at pc 0 opcode 0x00: method Lapp/Nobody;->handleMessage not found while dispatching Landroid/os/Handler;->sendMessage".to_string())
    );
}

#[test]
fn the_trace_shows_registers() {
    let dex = program(vec![coded("Lapp/Main;", "main", 2, 1, vec![0x7012, 0x000f])]);
    let mut vm = Vm::new(&dex, framework(), VmConfig::default());
    assert_eq!(described(vm.run_method(0, vec![Value::Int(3)])), Ok(Value::Int(7)));
    assert!(vm.drain_trace().is_empty());
    vm.enable_register_trace(true);
    assert_eq!(described(vm.run_method(0, vec![Value::Int(3)])), Ok(Value::Int(7)));
    let lines: Vec<String> = vm.drain_trace().iter().map(|m| read_message(m, &vec![])).collect();
    assert_eq!(
        lines,
        vec![
            "enter Lapp/Main;->main(()V) args=r0=0x3(Int(3))",
            "pc=0000 opcode=0x12 r0=0x0(Null) r1=0x3(Int(3))",
            "pc=0001 opcode=0x0f r0=0x7(Int(7)) r1=0x3(Int(3))",
        ]
    );
    assert!(vm.drain_trace().is_empty());
}

#[test]
fn a_frame_is_rendered_within_its_limit() {
    let dex = program(vec![
        coded("Lapp/GameView;", "onDraw", 2, 2, vec![0x0111]),
        coded("Lapp/GameView;", "spin", 1, 1, vec![0x0000, 0xff28]),
    ]);
    let config = VmConfig { max_steps: 50, max_call_depth: 8, trace_registers: false };
    let mut vm = Vm::new(&dex, framework(), config);
    let view = vm.alloc_instance("Lapp/GameView;");
    match described(vm.render_frame(view, "onDraw")) {
        Ok(Value::Object(canvas)) => assert!(matches!(
            vm.heap_object(canvas),
            Some(HeapObject::Instance { class_name, .. }) if class_name == "Landroid/graphics/Canvas;"
        )),
        other => panic!("{:?}", other),
    }
    // A frame that takes too long is no error.
    assert_eq!(described(vm.render_frame(view, "spin")), Ok(Value::Void));
    assert_eq!(described(vm.render_frame(view, "spin")), Ok(Value::Void));
    // Outside of a frame it is one.
    assert!(described(vm.run_instance_method(view, "spin", vec![])).is_err());
    assert_eq!(
        described(vm.render_frame(view, "missing")),
        Err("Dalvik VM error at pc 0 opcode 0x00: method Lapp/GameView;->missing not found".to_string())
    );
}

#[test]
fn a_frame_sleeps_at_least_a_millisecond() {
    let dex = program(vec![
        coded("Lapp/GameView;", "rest", 4, 1, vec![0x0016, 0, 0x2071, 1, 0x0010, 0x000e]),
        uncoded("Ljava/lang/Thread;", "sleep"),
    ]);
    let mut vm = Vm::new(&dex, framework(), VmConfig::default());
    let view = vm.alloc_instance("Lapp/GameView;");
    assert_eq!(described(vm.run_instance_method(view, "rest", vec![])), Ok(Value::Void));
    assert_eq!(vm.drain_effects(), vec![Effect::Sleep(0)]);
    assert_eq!(described(vm.render_frame(view, "rest")), Ok(Value::Void));
    assert_eq!(vm.drain_effects(), vec![Effect::Sleep(1)]);
    assert!(vm.drain_effects().is_empty());
}

#[test]
fn touches_reach_their_listeners() {
    let dex = program(vec![
        uncoded("Landroid/view/View;", "setOnTouchListener"),
        uncoded("Landroid/view/View;", "setOnClickListener"),
        // onTouch(listener, view, event): return the event
        coded("Lapp/Listener;", "onTouch", 3, 3, vec![0x0211]),
        coded("Lapp/Listener;", "onClick", 2, 2, vec![0x0111]),
    ]);
    let mut vm = Vm::new(&dex, framework(), VmConfig::default());
    let view = vm.alloc_instance("Landroid/view/View;");
    let listener = vm.alloc_instance("Lapp/Listener;");
    assert_eq!(
        described(vm.dispatch_touch(view, 0, 0, 0)),
        Err("Dalvik VM error at pc 0 opcode 0x00: view has no touch listener".to_string())
    );
    assert_eq!(
        described(vm.click_view(view)),
        Err("Dalvik VM error at pc 0 opcode 0x00: view has no click listener".to_string())
    );
    let both = vec![Value::Object(view), Value::Object(listener)];
    assert_eq!(described(vm.run_method(0, both.clone())), Ok(Value::Void));
    let (x, y) = (1.5f32.to_bits(), 2.5f32.to_bits());
    let event = match described(vm.dispatch_touch(view, 1, x, y)) {
        Ok(Value::Object(id)) => id,
        other => panic!("{:?}", other),
    };
    assert_eq!(vm.world.field(event, "action"), Some(&Value::Int(1)));
    assert_eq!(vm.world.field(event, "x"), Some(&Value::Float(x)));
    assert_eq!(vm.world.field(event, "y"), Some(&Value::Float(y)));
    // With a click listener, lifting the finger is a click.
    assert_eq!(described(vm.run_method(1, both)), Ok(Value::Void));
    assert_eq!(described(vm.dispatch_touch(view, 1, x, y)), Ok(Value::Object(view)));
    assert_eq!(described(vm.click_view(view)), Ok(Value::Object(view)));
    assert!(matches!(described(vm.dispatch_touch(view, 0, x, y)), Ok(Value::Object(e)) if e != view));
}

#[test]
fn objects_are_found() {
    let dex = program(vec![
        coded("Lapp/GameView;", "onDraw", 2, 2, vec![0x000e]),
        uncoded("Landroid/view/View;", "setOnClickListener"),
    ]);
    let mut vm = Vm::new(&dex, framework(), VmConfig::default());
    assert_eq!(vm.find_render_view(), None);
    let text = vm.alloc_string("text");
    let list = vm.alloc_collection();
    let first = vm.alloc_instance("Landroid/widget/Button;");
    let second = vm.alloc_instance("Landroid/widget/Button;");
    let game = vm.alloc_instance("Lapp/GameView;");
    assert_eq!((text, list, first, second, game), (0, 1, 2, 3, 4));
    assert!(!vm.instance_exists(text));
    assert!(vm.instance_exists(first));
    assert!(!vm.instance_exists(99));
    assert_eq!(vm.find_instance_by_class("Landroid/widget/Button;"), Some(first));
    assert_eq!(vm.find_instance_by_class("Lapp/Nothing;"), None);
    assert!(vm.has_instance_method(game, "onDraw"));
    assert!(!vm.has_instance_method(first, "onDraw"));
    assert_eq!(
        vm.instance_class_names(),
        vec!["Landroid/widget/Button;", "Landroid/widget/Button;", "Lapp/GameView;"]
    );
    assert_eq!(vm.find_render_view(), Some(game));
    assert_eq!(vm.find_render_view_or_content_view(), Some(game));
    assert_eq!(vm.find_clickable_view(7, &vec![]), None);
    let listener = vm.alloc_instance("Lapp/Listener;");
    for view in [first, second] {
        let r = vm.run_method(1, vec![Value::Object(view), Value::Object(listener)]);
        assert_eq!(described(r), Ok(Value::Void));
    }
    assert_eq!(vm.find_clickable_view(7, &vec![]), Some(first));
    vm.set_view_id(second, 7);
    assert_eq!(vm.find_clickable_view(7, &vec![]), Some(second));
    assert_eq!(vm.find_clickable_view(8, &vec![(second, 8)]), Some(second));
}

#[test]
fn a_content_view_stands_in_for_a_game_view() {
    let dex = program(vec![]);
    let mut shown = framework();
    shown.content_views = vec![(5, 0)];
    let mut vm = Vm::new(&dex, shown, VmConfig::default());
    assert_eq!(vm.find_render_view_or_content_view(), None);
    let view = vm.alloc_instance("Landroid/view/View;");
    assert_eq!(vm.find_render_view_or_content_view(), Some(view));
    // The first of several activities counts.
    let other = vm.alloc_instance("Landroid/view/View;");
    vm.world.framework.content_views = vec![(7, view), (4, other), (9, view)];
    assert_eq!(vm.find_render_view_or_content_view(), Some(other));
}

#[test]
fn an_activity_can_be_started_from_an_intent() {
    let dex = program(vec![uncoded("Landroid/content/Intent;", "startActivity")]);
    let mut vm = Vm::new(&dex, framework(), VmConfig::default());
    assert_eq!(vm.take_pending_activity(), None);
    let activity = vm.alloc_instance("Lapp/Activity;");
    let intent = vm.alloc_instance("Landroid/content/Intent;");
    vm.set_activity_intent(activity, intent);
    assert_eq!(vm.world.field(activity, "intent"), Some(&Value::Object(intent)));
    vm.world.set_object_field(intent, "component", Value::String("Lapp/Next;".to_string()));
    let r = vm.run_method(0, vec![Value::Object(activity), Value::Object(intent)]);
    assert!(described(r).is_ok());
    assert_eq!(vm.take_pending_activity(), Some(("Lapp/Next;".to_string(), intent)));
    assert_eq!(vm.take_pending_activity(), None);
}

#[test]
fn a_class_is_marked_once() {
    let dex = program(vec![
        coded("Lapp/Main;", "main", 1, 0, vec![0x000e]),
        coded("Lapp/Other;", "<clinit>", 1, 0, vec![0x0027]),
    ]);
    let mut vm = Vm::new(&dex, framework(), VmConfig::default());
    assert_eq!(vm.ensure_class_initialized("Lapp/Other;"), Some(1));
    assert_eq!(vm.ensure_class_initialized("Lapp/Other;"), None);
    assert_eq!(vm.ensure_class_initialized("Lapp/Main;"), None);
    assert_eq!(vm.initialized_classes, vec!["Lapp/Other;", "Lapp/Main;"]);
}
