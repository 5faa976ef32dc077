use dalvik_vm::convert::{compare_values, values_equal};
use dalvik_vm::dex::{ClassDef, CodeItem, DexFile, FieldId, Method};
use dalvik_vm::frames::{count_code, Frame, Status};
use dalvik_vm::host::{Answer, Effect};
use dalvik_vm::machine::{Vm, VmConfig};
use dalvik_vm::value::Value;
use dalvik_vm::vm::Resumed;
use dalvik_vm::world::Framework;

fn framework() -> Framework {
    Framework {
        surface_size: (320, 480),
        logs: vec![],
        preferences: vec![],
        files: vec![],
        system_services: vec![],
        content_views: vec![],
        media_players: vec![],
        surface_events: vec![],
        resource_strings: vec![],
        resource_images: vec![],
        gdx_view: None,
        gdx_listener: None,
        gdx_input: None,
        gdx_audio: None,
        gdx_files: None,
        gdx_graphics: None,
    }
}

fn method(class_name: &str, name: &str, code: Option<(u16, u16, Vec<u16>)>) -> Method {
    Method {
        class_name: class_name.to_string(),
        name: name.to_string(),
        prototype: "()V".to_string(),
        code: code.map(|(registers_size, ins_size, instructions)| CodeItem {
            registers_size,
            ins_size,
            instructions,
        }),
        access_flags: None,
        framework_owner: None,
    }
}

fn program(methods: Vec<Method>) -> DexFile {
    DexFile {
        strings: vec![],
        types: vec!["Lapp/Thing;".to_string()],
        methods,
        fields: vec![FieldId {
            class_name: "Lapp/Other;".to_string(),
            name: "shared".to_string(),
            descriptor: "I".to_string(),
        }],
        classes: vec![
            ClassDef {
                name: "Lapp/C;".to_string(),
                super_class: Some("Lapp/B;".to_string()),
            },
            ClassDef {
                name: "Lapp/B;".to_string(),
                super_class: Some("Lapp/A;".to_string()),
            },
            ClassDef {
                name: "Lapp/Round;".to_string(),
                super_class: Some("Lapp/Round;".to_string()),
            },
        ],
    }
}

/// Makes objects, reads a static field whose class has an initialiser, calls a method that
/// makes another object, and then one that fails.
fn busy() -> DexFile {
    program(vec![
        method(
            "Lapp/Main;",
            "main",
            Some((
                2,
                0,
                vec![
                    0x0022, 0, 0x0160, 0, 0x0071, 1, 0, 0x000c, 0x0071, 2, 0, 0x000e,
                ],
            )),
        ),
        method("Lapp/Main;", "make", Some((1, 0, vec![0x0022, 0, 0x0011]))),
        method("Lapp/Main;", "fail", Some((1, 0, vec![0x0022, 0, 0x0027]))),
        method("Lapp/Other;", "<clinit>", Some((1, 0, vec![0x1012, 0x0067, 0, 0x000e]))),
    ])
}

#[test]
fn every_step_keeps_what_there_is() {
    let dex = busy();
    let config = VmConfig { max_steps: 1000, max_call_depth: 2, trace_registers: true };
    let mut vm = Vm::new(&dex, framework(), config);
    vm.stack.push(Frame::Call { index: 0, args: vec![] });
    vm.status = Status::Running;
    let mut steps = 0;
    while !matches!(vm.status, Status::Done(_)) {
        let objects = vm.world.heap.len();
        let classes = vm.initialized_classes.clone();
        let executed = vm.executed_steps;
        let traced = vm.trace.len();
        let frames = vm.stack.len();
        vm.step();
        assert!(vm.world.heap.len() >= objects);
        assert_eq!(vm.initialized_classes[..classes.len()], classes[..]);
        assert!(vm.executed_steps >= executed);
        assert!(vm.trace.len() >= traced);
        assert!(vm.stack.len() + 1 >= frames);
        assert!(count_code(&vm.stack) <= 2);
        for frame in &vm.stack {
            if let Frame::Code(f) = frame {
                assert!(f.activation.pc <= f.code.instructions.len());
            }
        }
        steps += 1;
        assert!(steps < 100);
    }
    assert_eq!(vm.world.heap.len(), 3);
    assert_eq!(vm.initialized_classes, vec!["Lapp/Main;", "Lapp/Other;"]);
    assert!(vm.stack.is_empty());
    match &vm.status {
        Status::Done(Err(e)) => assert_eq!(
            e.describe(&vec![]),
            "Dalvik VM error at pc 2 opcode 0x27: throw is not implemented in Lapp/Main;->fail in Lapp/Main;->main"
        ),
        _ => panic!("no error"),
    }
    // A machine that is done stays so.
    vm.step();
    assert!(matches!(vm.status, Status::Done(Err(_))));
}

#[test]
fn asking_and_answering_change_nothing_else() {
    let dex = program(vec![
        method("Lapp/Main;", "main", Some((2, 0, vec![0x0071, 1, 0, 0x000b, 0x0010]))),
        method("Ljava/lang/System;", "nanoTime", None),
    ]);
    let mut vm = Vm::new(&dex, framework(), VmConfig::default());
    assert!(vm.run_method(0, vec![]).is_none());
    let (objects, executed, frames) = (vm.world.heap.len(), vm.executed_steps, vm.stack.len());
    vm.step();
    assert!(vm.question().is_some());
    assert_eq!((vm.world.heap.len(), vm.executed_steps, vm.stack.len()), (objects, executed, frames));
    assert!(matches!(vm.resume(Answer::Double(0)), Resumed::Refused(Answer::Double(0))));
    assert_eq!(vm.stack.len(), frames);
    match vm.resume(Answer::Nanoseconds(9)) {
        Resumed::Ran(Some(Ok(v))) => assert_eq!(v, Value::Long(9)),
        _ => panic!("not done"),
    }
    assert!(vm.stack.is_empty());
}

#[test]
fn rendering_ends_with_what_is_rendered() {
    let engine = "Lcom/hyperkani/sliceice/Engine;";
    let sleep = vec![0x0016, 0, 0x2071, 2, 0x0010, 0x000e];
    let dex = program(vec![
        // The engine renders within a call, and then fails.
        method(engine, "render", Some((2, 0, vec![0x0016, 0, 0x2071, 2, 0x0010, 0x0027]))),
        method("Lapp/Main;", "rest", Some((2, 0, sleep))),
        method("Ljava/lang/Thread;", "sleep", None),
        method("Lapp/View;", "draw", Some((1, 1, vec![0x0027]))),
    ]);
    let mut vm = Vm::new(&dex, framework(), VmConfig::default());
    assert!(matches!(vm.run_method(0, vec![]), Some(Err(_))));
    assert!(!vm.world.frame_mode);
    assert!(matches!(vm.run_method(1, vec![]), Some(Ok(_))));
    assert_eq!(vm.drain_effects(), vec![Effect::Sleep(1), Effect::Sleep(0)]);
    let view = vm.alloc_instance("Lapp/View;");
    assert!(matches!(vm.render_frame(view, "draw"), Some(Err(_))));
    assert!(!vm.world.frame_mode);
}

#[test]
fn classes_descend_from_their_super_classes() {
    let dex = program(vec![]);
    assert!(dex.is_assignable("Lapp/C;", "Lapp/C;"));
    assert!(dex.is_assignable("Lapp/C;", "Lapp/B;"));
    assert!(dex.is_assignable("Lapp/B;", "Lapp/A;"));
    assert!(dex.is_assignable("Lapp/C;", "Lapp/A;"));
    assert!(!dex.is_assignable("Lapp/A;", "Lapp/C;"));
    assert!(!dex.is_assignable("Lapp/Round;", "Lapp/A;"));
}

#[test]
fn comparing_the_other_way_round() {
    let values = [
        Value::Int(-1),
        Value::Int(2),
        Value::Long(2),
        Value::Float(1.5f32.to_bits()),
        Value::Float(f32::NAN.to_bits()),
        Value::Double(0.0f64.to_bits()),
        Value::Double((-0.0f64).to_bits()),
        Value::Null,
        Value::Void,
        Value::Object(3),
        Value::String("x".to_string()),
    ];
    for a in &values {
        for b in &values {
            assert_eq!(values_equal(a, b), values_equal(b, a));
            match (compare_values(a, b, 0, 0), compare_values(b, a, 0, 0)) {
                (Ok(x), Ok(y)) => assert_eq!(x, -y),
                (Err(_), Err(_)) => {}
                _ => panic!("one way only"),
            }
        }
    }
}

#[test]
fn a_call_leaves_its_caller_as_it_was() {
    // main calls a method that fails, and one that returns; each frame that is left is found
    // again as it was.
    let dex = busy();
    let config = VmConfig { max_steps: 1000, max_call_depth: 8, trace_registers: false };
    let mut vm = Vm::new(&dex, framework(), config);
    vm.stack.push(Frame::Call { index: 0, args: vec![] });
    vm.status = Status::Running;
    let mut entered: Vec<(usize, usize, bool)> = vec![];
    let mut left = 0;
    while !matches!(vm.status, Status::Done(_)) {
        if let (Status::Running, Some(Frame::Call { .. })) = (&vm.status, vm.stack.last()) {
            let below = vm.stack.len() - 1;
            entered.push((below, count_code(&vm.stack), vm.world.frame_mode));
        }
        vm.step();
        if let Some((below, depth, rendering)) = entered.last().copied() {
            if vm.stack.len() <= below {
                assert!(matches!(vm.status, Status::Returning(_) | Status::Done(_)));
                assert_eq!(vm.stack.len(), below);
                assert_eq!(count_code(&vm.stack), depth);
                assert_eq!(vm.world.frame_mode, rendering);
                entered.pop();
                left += 1;
            }
        }
        assert!(vm.trace.is_empty());
    }
    assert!(entered.is_empty());
    assert_eq!(left, 4);
    assert_eq!(vm.config.max_call_depth, 8);
    assert!(vm.drain_trace().is_empty());
}
