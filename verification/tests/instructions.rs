use dalvik_vm::dex::{ClassDef, CodeItem, DexFile, FieldId, Method};
use dalvik_vm::machine::{Vm, VmConfig};
use dalvik_vm::value::{HeapObject, Value};
use dalvik_vm::world::Framework;

fn framework() -> Framework {
    Framework {
        surface_size: (320, 480),
        logs: vec![],
        preferences: vec![],
        files: vec![],
        system_services: vec![],
        content_views: vec![],
        media_players: vec![],
        surface_events: vec![],
        resource_strings: vec![],
        resource_images: vec![],
        gdx_view: None,
        gdx_listener: None,
        gdx_input: None,
        gdx_audio: None,
        gdx_files: None,
        gdx_graphics: None,
    }
}

fn method(class_name: &str, name: &str, code: Option<CodeItem>) -> Method {
    Method {
        class_name: class_name.to_string(),
        name: name.to_string(),
        prototype: "()V".to_string(),
        code,
        access_flags: None,
        framework_owner: None,
    }
}

fn program(registers_size: u16, ins_size: u16, instructions: Vec<u16>) -> DexFile {
    DexFile {
        strings: vec!["first".to_string(), "second".to_string()],
        types: vec!["Lapp/Thing;".to_string(), "[I".to_string(), "[B".to_string()],
        methods: vec![method(
            "Lapp/Main;",
            "main",
            Some(CodeItem { registers_size, ins_size, instructions }),
        )],
        fields: vec![FieldId {
            class_name: "Lapp/Thing;".to_string(),
            name: "count".to_string(),
            descriptor: "I".to_string(),
        }],
        classes: vec![
            ClassDef { name: "Lapp/Thing;".to_string(), super_class: Some("Lapp/Base;".to_string()) },
            ClassDef { name: "Lapp/Base;".to_string(), super_class: None },
        ],
    }
}

fn run(registers: u16, ins: u16, words: Vec<u16>, args: Vec<Value>) -> Result<Value, String> {
    let dex = program(registers, ins, words);
    let mut vm = Vm::new(&dex, framework(), VmConfig::default());
    match vm.run_method(0, args) {
        Some(Ok(v)) => Ok(v),
        Some(Err(e)) => Err(e.describe(&vec![])),
        None => panic!("the program asks"),
    }
}

fn error(at: usize, opcode: u8, message: &str) -> Result<Value, String> {
    Err(format!(
        "Dalvik VM error at pc {} opcode 0x{:02x}: {} in Lapp/Main;->main",
        at, opcode, message
    ))
}

fn single(f: f32) -> Value {
    Value::Float(f.to_bits())
}

fn double(f: f64) -> Value {
    Value::Double(f.to_bits())
}

#[test]
fn a_method_without_instructions_gives_nothing() {
    assert_eq!(run(1, 0, vec![], vec![]), Ok(Value::Void));
    assert_eq!(run(1, 0, vec![0x0000], vec![]), Ok(Value::Void));
    assert_eq!(run(1, 0, vec![0x000e], vec![]), Ok(Value::Void));
}

#[test]
fn constants_are_returned() {
    assert_eq!(run(2, 0, vec![0x7012, 0x000f], vec![]), Ok(Value::Int(7)));
    assert_eq!(run(2, 0, vec![0x0013, 0xffff, 0x000f], vec![]), Ok(Value::Int(-1)));
    assert_eq!(run(2, 0, vec![0x0014, 0x5678, 0x1234, 0x000f], vec![]), Ok(Value::Int(0x1234_5678)));
    assert_eq!(run(2, 0, vec![0x0015, 0x4000, 0x000f], vec![]), Ok(Value::Int(0x4000_0000)));
    assert_eq!(run(2, 0, vec![0x0016, 0xfffe, 0x0010], vec![]), Ok(Value::Long(-2)));
    assert_eq!(
        run(2, 0, vec![0x0018, 0x0001, 0, 0, 0x8000, 0x0010], vec![]),
        Ok(Value::Long(i64::MIN + 1))
    );
    assert_eq!(run(2, 0, vec![0x0019, 0x7fff, 0x0010], vec![]), Ok(Value::Long(0x7fff_0000_0000_0000)));
}

#[test]
fn strings_are_found_by_index() {
    let dex = program(1, 0, vec![0x001a, 1, 0x0011]);
    let mut vm = Vm::new(&dex, framework(), VmConfig::default());
    let got = vm.run_method(0, vec![]).unwrap().unwrap();
    match got {
        Value::Object(id) => {
            assert!(matches!(vm.heap_object(id), Some(HeapObject::String(s)) if s == "second"))
        }
        Value::String(s) => assert_eq!(s, "second"),
        other => panic!("{:?}", other),
    }
}

#[test]
fn moves_copy_registers() {
    // const/4 v0, 5; move v1, v0; return v1
    assert_eq!(run(2, 0, vec![0x5012, 0x0101, 0x010f], vec![]), Ok(Value::Int(5)));
    // move/from16 v1, v0 and move/16 v2, v1
    assert_eq!(
        run(3, 0, vec![0x5012, 0x0102, 0, 0x0003, 2, 1, 0x020f], vec![]),
        Ok(Value::Int(5))
    );
    // move-wide v2, v0
    assert_eq!(
        run(4, 0, vec![0x0016, 9, 0x0204, 0x0210], vec![]),
        Ok(Value::Long(9))
    );
}

#[test]
fn a_register_outside_the_frame_is_reported() {
    assert_eq!(run(1, 0, vec![0x010f], vec![]), error(0, 0x0f, "register v1 is outside the frame"));
    assert_eq!(
        run(1, 0, vec![0x0016, 1], vec![]),
        error(0, 0x16, "wide register v0 is outside the frame")
    );
}

#[test]
fn a_truncated_instruction_is_reported() {
    assert_eq!(run(1, 0, vec![0x0013], vec![]), error(0, 0x13, "instruction payload is truncated"));
}

#[test]
fn an_unknown_opcode_is_reported() {
    assert_eq!(run(1, 0, vec![0x003e], vec![]), error(0, 0x3e, "opcode is not implemented by the VM"));
    assert_eq!(run(1, 0, vec![0x0027], vec![]), error(0, 0x27, "throw is not implemented"));
}

#[test]
fn arguments_stand_in_the_last_registers() {
    assert_eq!(run(3, 2, vec![0x010f], vec![Value::Int(7), Value::Int(8)]), Ok(Value::Int(7)));
    assert_eq!(run(3, 2, vec![0x020f], vec![Value::Int(7), Value::Int(8)]), Ok(Value::Int(8)));
    assert_eq!(run(3, 2, vec![0x000f], vec![Value::Int(7), Value::Int(8)]), Ok(Value::Null));
    assert_eq!(run(3, 2, vec![0x020f], vec![Value::Int(7)]), Ok(Value::Null));
}

#[test]
fn too_many_arguments_are_reported() {
    assert_eq!(
        run(2, 1, vec![0x000e], vec![Value::Int(1), Value::Int(2)]),
        error(0, 0, "method argument exceeds input registers")
    );
    assert_eq!(
        run(1, 2, vec![0x000e], vec![]),
        error(0, 0, "register count is smaller than input count")
    );
}

fn binary(opcode: u16, a: Value, b: Value) -> Result<Value, String> {
    // v0 <- v1 op v2
    run(3, 2, vec![opcode, 0x0201, 0x000f], vec![a, b])
}

fn wide_binary(opcode: u16, a: Value, b: Value) -> Result<Value, String> {
    // v0 <- v2 op v3, with a spare register behind the result
    run(4, 2, vec![opcode, 0x0302, 0x0010], vec![a, b])
}

#[test]
fn integers_are_computed() {
    assert_eq!(binary(0x90, Value::Int(i32::MAX), Value::Int(1)), Ok(Value::Int(i32::MIN)));
    assert_eq!(binary(0x91, Value::Int(3), Value::Int(5)), Ok(Value::Int(-2)));
    assert_eq!(binary(0x92, Value::Int(65536), Value::Int(65536)), Ok(Value::Int(0)));
    assert_eq!(binary(0x93, Value::Int(-7), Value::Int(2)), Ok(Value::Int(-3)));
    assert_eq!(binary(0x93, Value::Int(i32::MIN), Value::Int(-1)), Ok(Value::Int(i32::MIN)));
    assert_eq!(binary(0x94, Value::Int(-7), Value::Int(2)), Ok(Value::Int(-1)));
    assert_eq!(binary(0x95, Value::Int(12), Value::Int(10)), Ok(Value::Int(8)));
    assert_eq!(binary(0x96, Value::Int(12), Value::Int(10)), Ok(Value::Int(14)));
    assert_eq!(binary(0x97, Value::Int(12), Value::Int(10)), Ok(Value::Int(6)));
    assert_eq!(binary(0x98, Value::Int(1), Value::Int(33)), Ok(Value::Int(2)));
    assert_eq!(binary(0x99, Value::Int(-8), Value::Int(1)), Ok(Value::Int(-4)));
    assert_eq!(binary(0x9a, Value::Int(-1), Value::Int(28)), Ok(Value::Int(15)));
}

#[test]
fn dividing_by_zero_is_reported() {
    assert_eq!(
        binary(0x93, Value::Int(1), Value::Int(0)),
        error(0, 0x93, "integer division by zero")
    );
    assert_eq!(
        binary(0x94, Value::Int(1), Value::Int(0)),
        error(0, 0x94, "integer remainder by zero")
    );
    assert_eq!(
        wide_binary(0x9e, Value::Long(1), Value::Long(0)),
        error(0, 0x9e, "long division by zero")
    );
    assert_eq!(
        wide_binary(0x9f, Value::Long(1), Value::Long(0)),
        error(0, 0x9f, "long remainder by zero")
    );
}

#[test]
fn longs_are_computed() {
    assert_eq!(wide_binary(0x9b, Value::Long(i64::MAX), Value::Long(1)), Ok(Value::Long(i64::MIN)));
    assert_eq!(wide_binary(0x9e, Value::Long(-7), Value::Int(2)), Ok(Value::Long(-3)));
    assert_eq!(wide_binary(0x9e, Value::Long(i64::MIN), Value::Long(-1)), Ok(Value::Long(i64::MIN)));
    assert_eq!(wide_binary(0xa3, Value::Long(1), Value::Int(65)), Ok(Value::Long(2)));
    assert_eq!(wide_binary(0xa5, Value::Long(-1), Value::Int(60)), Ok(Value::Long(15)));
    assert_eq!(
        wide_binary(0x9b, Value::Void, Value::Long(1)),
        error(0, 0x9b, "value is not a long")
    );
}

#[test]
fn singles_and_doubles_are_computed() {
    assert_eq!(binary(0xa6, single(0.1), single(0.2)), Ok(single(0.1f32 + 0.2f32)));
    assert_eq!(binary(0xa9, single(1.0), single(0.0)), Ok(single(f32::INFINITY)));
    assert_eq!(binary(0xaa, single(-7.5), single(2.0)), Ok(single(-1.5)));
    assert_eq!(wide_binary(0xab, double(0.1), double(0.2)), Ok(double(0.1 + 0.2)));
    assert_eq!(wide_binary(0xad, double(3.0), Value::Int(4)), Ok(double(12.0)));
    assert_eq!(
        binary(0xa6, Value::String("x".to_string()), single(1.0)),
        error(0, 0xa6, "value is not a float")
    );
}

#[test]
fn two_address_operations_write_the_first_register() {
    // add-int/2addr v0, v1; return v0
    assert_eq!(run(2, 2, vec![0x10b0, 0x000f], vec![Value::Int(2), Value::Int(3)]), Ok(Value::Int(5)));
    assert_eq!(
        run(2, 2, vec![0x10c6, 0x000f], vec![single(2.0), single(3.5)]),
        Ok(single(5.5))
    );
    assert_eq!(
        run(2, 2, vec![0x10c6, 0x000f], vec![Value::String("a".to_string()), single(3.5)]),
        error(0, 0xc6, "float 2addr left v0=String(\"a\"): value is not a float")
    );
}

#[test]
fn literal_operations_extend_the_literal() {
    // add-int/lit8 v0, v1, #-1
    assert_eq!(run(2, 1, vec![0x00d8, 0xff01, 0x000f], vec![Value::Int(5)]), Ok(Value::Int(4)));
    // rsub-int v0, v1, #10
    assert_eq!(run(2, 1, vec![0x10d1, 10, 0x000f], vec![Value::Int(3)]), Ok(Value::Int(7)));
}

#[test]
fn conversions_follow_the_types() {
    // int-to-byte, int-to-char, int-to-short
    assert_eq!(run(2, 1, vec![0x108d, 0x000f], vec![Value::Int(0x180)]), Ok(Value::Int(-128)));
    assert_eq!(run(2, 1, vec![0x108e, 0x000f], vec![Value::Int(-1)]), Ok(Value::Int(0xffff)));
    assert_eq!(run(2, 1, vec![0x108f, 0x000f], vec![Value::Int(0x1_8000)]), Ok(Value::Int(-32768)));
    // float-to-int saturates, and gives zero for NaN
    assert_eq!(run(2, 1, vec![0x1087, 0x000f], vec![single(1e20)]), Ok(Value::Int(i32::MAX)));
    assert_eq!(run(2, 1, vec![0x1087, 0x000f], vec![single(f32::NAN)]), Ok(Value::Int(0)));
    assert_eq!(run(2, 1, vec![0x1087, 0x000f], vec![single(-2.9)]), Ok(Value::Int(-2)));
    // neg-int, not-int
    assert_eq!(run(2, 1, vec![0x107b, 0x000f], vec![Value::Int(i32::MIN)]), Ok(Value::Int(i32::MIN)));
    assert_eq!(run(2, 1, vec![0x107c, 0x000f], vec![Value::Int(5)]), Ok(Value::Int(-6)));
    // int-to-float
    assert_eq!(
        run(2, 1, vec![0x1082, 0x000f], vec![Value::Int(16_777_217)]),
        Ok(single(16_777_217i32 as f32))
    );
}

#[test]
fn comparisons_order_numbers() {
    assert_eq!(binary(0x2d, single(f32::NAN), single(1.0)), Ok(Value::Int(-1)));
    assert_eq!(binary(0x2e, single(f32::NAN), single(1.0)), Ok(Value::Int(1)));
    assert_eq!(binary(0x2e, single(-0.0), single(0.0)), Ok(Value::Int(0)));
    assert_eq!(binary(0x31, Value::Long(3), Value::Long(9)), Ok(Value::Int(-1)));
}

#[test]
fn a_loop_counts_down() {
    // v0 = 0; while v1 != 0 { v0 += v1; v1 -= 1 }; return v0
    let words = vec![
        0x0012, // 0: const/4 v0, 0
        0x0138, 7, // 1: if-eqz v1, +7
        0x10b0, // 3: add-int/2addr v0, v1
        0x01d8, 0xff01, // 4: add-int/lit8 v1, v1, -1
        0xfb28, // 6: goto -5
        0x0000, // 7: nop
        0x000f, // 8: return v0
    ];
    assert_eq!(run(2, 1, words, vec![Value::Int(10)]), Ok(Value::Int(55)));
}

#[test]
fn a_jump_out_of_the_code_is_reported() {
    assert_eq!(
        run(1, 0, vec![0x0528], vec![]),
        error(0, 0x28, "branch target outside code: pc=0 offset=5 target=5 len=1")
    );
    assert_eq!(
        run(1, 0, vec![0x0000, 0xfe28], vec![]),
        error(1, 0x28, "branch target outside code: pc=1 offset=-2 target=-1 len=2")
    );
}

#[test]
fn a_jump_right_behind_the_code_ends_the_method() {
    assert_eq!(run(1, 0, vec![0x0128], vec![]), Ok(Value::Void));
}

#[test]
fn a_packed_switch_jumps_by_key() {
    // switch (v0) { case 5: return 1; case 6: return 2 } return 0
    let words = vec![
        0x002b, 10, 0, // 0: packed-switch v0, +10
        0x0012, 0x000f, // 3: return 0
        0x1012, 0x000f, // 5: return 1
        0x2012, 0x000f, // 7: return 2
        0x0000, // 9: padding
        0x0100, 2, 5, 0, 5, 0, 7, 0, // 10: payload
    ];
    assert_eq!(run(1, 1, words.clone(), vec![Value::Int(5)]), Ok(Value::Int(1)));
    assert_eq!(run(1, 1, words.clone(), vec![Value::Int(6)]), Ok(Value::Int(2)));
    assert_eq!(run(1, 1, words.clone(), vec![Value::Int(7)]), Ok(Value::Int(0)));
    assert_eq!(run(1, 1, words, vec![Value::Int(-1)]), Ok(Value::Int(0)));
}

#[test]
fn a_sparse_switch_jumps_by_key() {
    let words = vec![
        0x002c, 10, 0, 0x0012, 0x000f, 0x1012, 0x000f, 0x2012, 0x000f, 0x0000, 0x0200, 2, 0xfff6,
        0xffff, 5, 0, 100, 0, 7, 0,
    ];
    assert_eq!(run(1, 1, words.clone(), vec![Value::Int(-10)]), Ok(Value::Int(1)));
    assert_eq!(run(1, 1, words.clone(), vec![Value::Int(100)]), Ok(Value::Int(2)));
    assert_eq!(run(1, 1, words, vec![Value::Int(0)]), Ok(Value::Int(0)));
}

#[test]
fn a_sparse_switch_needs_no_target_of_another_key() {
    // sparse-switch v0, +5; return v0; the payload has a key at its end, but no target
    let words = vec![0x002c, 5, 0, 0x000f, 0x0000, 0x0200, 1, 7, 0];
    assert_eq!(run(1, 1, words.clone(), vec![Value::Int(1)]), Ok(Value::Int(1)));
    assert_eq!(
        run(1, 1, words, vec![Value::Int(7)]),
        error(0, 0x2c, "sparse switch payload is truncated")
    );
    // Half a target is none, and half a key cannot be compared.
    let words = vec![0x002c, 5, 0, 0x000f, 0x0000, 0x0200, 1, 7, 0, 3];
    assert_eq!(run(1, 1, words.clone(), vec![Value::Int(1)]), Ok(Value::Int(1)));
    assert_eq!(
        run(1, 1, words, vec![Value::Int(7)]),
        error(0, 0x2c, "sparse switch payload is truncated")
    );
    let words = vec![0x002c, 5, 0, 0x000f, 0x0000, 0x0200, 1, 7];
    assert_eq!(
        run(1, 1, words, vec![Value::Int(1)]),
        error(0, 0x2c, "sparse switch payload is truncated")
    );
}

#[test]
fn arrays_are_made_filled_and_read() {
    // new-array v0, v2, [I; aput v2, v0, v1; aget v1, v0, v1; return v1
    let words = vec![
        0x2023, 1, // new-array v0, v2 (size 3)
        0x1112, // const/4 v1, 1
        0x024c, 0x0100, // aput v2, v0, v1
        0x0144, 0x0100, // aget v1, v0, v1
        0x010f,
    ];
    assert_eq!(run(3, 1, words, vec![Value::Int(3)]), Ok(Value::Int(3)));
    // array-length v1, v0
    let words = vec![0x2023, 1, 0x0121, 0x010f];
    assert_eq!(run(3, 1, words, vec![Value::Int(3)]), Ok(Value::Int(3)));
}

#[test]
fn an_index_outside_an_array_is_reported() {
    let words = vec![0x2023, 1, 0x0144, 0x0200, 0x010f];
    assert_eq!(
        run(3, 1, words, vec![Value::Int(3)]),
        error(2, 0x44, "array index out of bounds")
    );
}

#[test]
fn array_data_is_filled_in() {
    // new-array v0, v2, [B; fill-array-data v0; aget-byte v1, v0, v1(2)
    let words = vec![
        0x2023, 2, // 0
        0x0026, 8, 0, // 2: +8
        0x2112, // 5: const/4 v1, 2
        0x0148, 0x0100, // 6: aget-byte
        0x010f, // 8
        0x0000, // 9
        0x0300, 1, 3, 0, 0x0201, 0x00ff, // 10: payload 1, 2, 255
    ];
    assert_eq!(run(3, 1, words, vec![Value::Int(3)]), Ok(Value::Int(255)));
}

#[test]
fn instances_keep_their_fields() {
    // new-instance v0; iput v2, v0, field 0; iget v1, v0, field 0; return v1
    let words = vec![0x0022, 0, 0x0259, 0, 0x0152, 0, 0x010f];
    assert_eq!(run(3, 1, words, vec![Value::Int(41)]), Ok(Value::Int(41)));
    // without a write the field is blank
    let words = vec![0x0022, 0, 0x0152, 0, 0x010f];
    assert_eq!(run(3, 1, words, vec![Value::Int(41)]), Ok(Value::Int(0)));
}

#[test]
fn instance_of_follows_the_super_classes() {
    // new-instance v0; instance-of v1, v0, type 0; return v1
    let words = vec![0x0022, 0, 0x0120, 0, 0x010f];
    assert_eq!(run(3, 1, words, vec![Value::Int(0)]), Ok(Value::Int(1)));
    let words = vec![0x0022, 0, 0x0120, 1, 0x010f];
    assert_eq!(run(3, 1, words, vec![Value::Int(0)]), Ok(Value::Int(0)));
}
