use dalvik_vm::code::{branch_target, code_word, three_registers, two_registers};
use dalvik_vm::color::{opaque_color, pack_color, unpack_argb_color, unpack_color, Rgba8};
use dalvik_vm::convert::{
    as_double, as_float, as_int, as_long, compare_double, compare_float, compare_long,
    compare_values, float_arg, int_arg, is_zero, numeric_value, object_arg, value_sort_key,
    values_equal,
};
use dalvik_vm::dex::CodeItem;
use dalvik_vm::error::{
    failure, message_floats, messages_equal, read_message, show, value_bits, Message, Piece,
    VmError,
};
use dalvik_vm::machine::VmConfig;
use dalvik_vm::table::{get_id, get_named, put_id, put_named};
use dalvik_vm::text::{
    contains_text, decimal_text, digits_text, ends_with, find_text, hash_text, pad, parse_int,
    parse_long, same_ignoring_case, single_texts, slashes_for_stops, split_text, starts_with,
};
use dalvik_vm::value::{default_value_for_type, HeapObject, Value};

fn text(e: VmError) -> String {
    e.describe(&vec![])
}

#[test]
fn limits_have_defaults() {
    let config = VmConfig::default();
    assert_eq!(config.max_steps, 100_000);
    assert_eq!(config.max_call_depth, 256);
    assert!(!config.trace_registers);
}

#[test]
fn an_error_says_where_it_came_about() {
    assert_eq!(
        text(failure(12, 0x0f, "something broke")),
        "Dalvik VM error at pc 12 opcode 0x0f: something broke"
    );
    let e = failure(0, 0, "bad").note(" in a->b".to_string());
    assert_eq!(text(e), "Dalvik VM error at pc 0 opcode 0x00: bad in a->b");
}

#[test]
fn values_are_shown_as_they_are_built() {
    assert_eq!(show(&Value::Int(-3), ""), "Int(-3)");
    assert_eq!(show(&Value::Long(4), ""), "Long(4)");
    assert_eq!(show(&Value::Float(0x3f80_0000), "1.0"), "Float(1.0)");
    assert_eq!(show(&Value::Object(9), ""), "Object(9)");
    assert_eq!(show(&Value::Void, ""), "Void");
    assert_eq!(show(&Value::Null, ""), "Null");
    assert_eq!(show(&Value::String("a\"b\n".to_string()), ""), "String(\"a\\\"b\\n\")");
}

#[test]
fn messages_are_read_with_the_texts_of_their_numbers() {
    let one = Value::Float(1.0f32.to_bits());
    let message = vec![
        Piece::Text("left ".to_string()),
        Piece::Debug(one.clone()),
        Piece::Text(" ".to_string()),
        Piece::List(vec![Value::Int(1), Value::Null]),
        Piece::Text(" ".to_string()),
        Piece::Registers(vec![Value::Int(-1), Value::Object(16)]),
    ];
    assert_eq!(message_floats(&message), vec![one.clone()]);
    assert_eq!(
        read_message(&message, &vec![(one, "1.0".to_string())]),
        "left Float(1.0) [Int(1), Null] r0=0xffffffff(Int(-1)) r1=0x10(Object(16))"
    );
}

#[test]
fn the_bits_of_a_value_identify_it() {
    assert_eq!(value_bits(&Value::Int(-1)), 0xffff_ffff);
    assert_eq!(value_bits(&Value::Long(-1)), u64::MAX);
    assert_eq!(value_bits(&Value::Float(7)), 7);
    assert_eq!(value_bits(&Value::Null), 0);
    assert_eq!(value_bits(&Value::String(String::new())), 0xcbf2_9ce4_8422_2325);
    assert_eq!(value_bits(&Value::String("a".to_string())), 0xaf63_dc4c_8601_ec8c);
    assert_eq!(hash_text("a"), 0xaf63_dc4c_8601_ec8c);
}

#[test]
fn operands_are_converted() {
    assert_eq!(as_int(&Value::Int(4), 0, 0).unwrap(), 4);
    assert_eq!(as_int(&Value::Null, 0, 0).unwrap(), 0);
    assert_eq!(as_int(&Value::Void, 0, 0).unwrap(), 0);
    assert_eq!(
        text(as_int(&Value::Long(1), 3, 0x90).unwrap_err()),
        "Dalvik VM error at pc 3 opcode 0x90: value is not an integer: Long(1)"
    );
    assert_eq!(as_long(&Value::Int(-4), 0, 0).unwrap(), -4);
    assert!(as_long(&Value::Void, 0, 0).is_err());
    assert_eq!(as_float(&Value::Int(3), 0, 0).unwrap(), 3.0f32.to_bits());
    assert_eq!(as_float(&Value::Double(0.1f64.to_bits()), 0, 0).unwrap(), 0.1f32.to_bits());
    assert!(as_float(&Value::Object(0), 0, 0).is_err());
    assert_eq!(as_double(&Value::Float(0.5f32.to_bits()), 0, 0).unwrap(), 0.5f64.to_bits());
    assert!(as_double(&Value::String(String::new()), 0, 0).is_err());
}

#[test]
fn arguments_are_converted() {
    let args = vec![Value::Float(2.9f32.to_bits()), Value::Long(1 << 33), Value::Object(5), Value::Null];
    assert_eq!(int_arg(&args, 0).unwrap(), 2);
    assert_eq!(int_arg(&args, 1).unwrap(), 0);
    assert_eq!(int_arg(&args, 3).unwrap(), 0);
    assert_eq!(
        text(int_arg(&args, 2).unwrap_err()),
        "Dalvik VM error at pc 0 opcode 0x00: framework argument 2 is not an integer"
    );
    assert_eq!(
        text(float_arg(&args, 9).unwrap_err()),
        "Dalvik VM error at pc 0 opcode 0x00: framework argument 9 is not numeric"
    );
    assert_eq!(object_arg(&args, 2).unwrap(), 5);
    assert_eq!(
        text(object_arg(&args, 3).unwrap_err()),
        "Dalvik VM error at pc 0 opcode 0x00: framework argument 3 is not an object"
    );
    assert_eq!(numeric_value(Some(&Value::Int(2))), Some(2.0f32.to_bits()));
    assert_eq!(numeric_value(Some(&Value::Null)), None);
    assert_eq!(numeric_value(None), None);
}

#[test]
fn values_are_equal_as_numbers_are() {
    let nan = Value::Float(f32::NAN.to_bits());
    assert!(!values_equal(&nan, &nan));
    assert!(nan != nan);
    assert!(Value::Float(0) == Value::Float(0x8000_0000));
    assert!(Value::Int(1) != Value::Long(1));
    assert!(Value::Null != Value::Void);
    assert!(Value::String("a".to_string()) == Value::String("a".to_string()));
}

#[test]
fn values_are_compared() {
    assert_eq!(compare_values(&Value::Int(1), &Value::Int(2), 0, 0).unwrap(), -1);
    assert_eq!(compare_values(&Value::Null, &Value::Void, 0, 0).unwrap(), 0);
    let nan = Value::Double(f64::NAN.to_bits());
    assert_eq!(compare_values(&nan, &Value::Double(0), 0, 0).unwrap(), 0);
    assert_eq!(
        text(compare_values(&Value::Int(1), &Value::Long(2), 7, 0x34).unwrap_err()),
        "Dalvik VM error at pc 7 opcode 0x34: values are not comparable: Int(1) and Long(2)"
    );
    assert_eq!(compare_long(i64::MIN, i64::MAX), -1);
    assert_eq!(compare_long(3, 3), 0);
    assert_eq!(compare_float(1.0f32.to_bits(), 0.5f32.to_bits(), false), 1);
    assert_eq!(compare_float(f32::NAN.to_bits(), 0, true), 1);
    assert_eq!(compare_double(f64::NAN.to_bits(), 0, false), -1);
}

#[test]
fn zero_is_told_apart() {
    assert!(is_zero(&Value::Null));
    assert!(is_zero(&Value::Float(0x8000_0000)));
    assert!(!is_zero(&Value::Object(0)));
    assert!(!is_zero(&Value::Double(1)));
}

#[test]
fn sort_keys_are_texts() {
    assert_eq!(value_sort_key(&Value::Int(-12), ""), "-12");
    assert_eq!(value_sort_key(&Value::Float(0), "0"), "0");
    assert_eq!(value_sort_key(&Value::Object(3), ""), "3");
    assert_eq!(value_sort_key(&Value::Null, "x"), "");
}

#[test]
fn blank_values_follow_the_type() {
    assert_eq!(default_value_for_type("Z"), Value::Int(0));
    assert_eq!(default_value_for_type("J"), Value::Long(0));
    assert_eq!(default_value_for_type("D"), Value::Double(0));
    assert_eq!(default_value_for_type("Ljava/lang/String;"), Value::Null);
}

#[test]
fn colours_survive_packing() {
    let c = Rgba8 { r: 1, g: 2, b: 3, a: 255 };
    assert_eq!(pack_color(c), 0x0102_03ff);
    assert_eq!(unpack_color(pack_color(c)), c);
    assert_eq!(pack_color(unpack_color(-2)), -2);
    assert_eq!(unpack_argb_color(0xff10_2030), Rgba8 { r: 0x10, g: 0x20, b: 0x30, a: 0xff });
    assert_eq!(opaque_color(9, 8, 7), Rgba8 { r: 9, g: 8, b: 7, a: 255 });
}

#[test]
fn the_parts_of_an_instruction_are_found() {
    assert_eq!(two_registers(0xab12), (0xb, 0xa));
    assert_eq!(three_registers(0xab90, 0x1234), (0xab, 0x34, 0x12));
    let code = CodeItem { registers_size: 0, ins_size: 0, instructions: vec![5] };
    assert_eq!(code_word(&code, 0, 0, 0).unwrap(), 5);
    assert_eq!(
        text(code_word(&code, 1, 0, 0x13).unwrap_err()),
        "Dalvik VM error at pc 0 opcode 0x13: instruction payload is truncated"
    );
    assert_eq!(branch_target(3, -3, 10, 3, 0).unwrap(), 0);
    assert_eq!(branch_target(3, 7, 10, 3, 0).unwrap(), 10);
    assert!(branch_target(3, 8, 10, 3, 0).is_err());
}

#[test]
fn numbers_are_written_in_digits() {
    assert_eq!(decimal_text(i64::MIN), "-9223372036854775808");
    assert_eq!(decimal_text(0), "0");
    assert_eq!(digits_text(255, 16), "ff");
    assert_eq!(pad("7".to_string(), 4), "0007");
    assert_eq!(pad("12345".to_string(), 4), "12345");
}

#[test]
fn numbers_are_read_from_digits() {
    assert_eq!(parse_int("+12"), Some(12));
    assert_eq!(parse_int("-2147483648"), Some(i32::MIN));
    assert_eq!(parse_int("2147483648"), None);
    assert_eq!(parse_int(""), None);
    assert_eq!(parse_int("-"), None);
    assert_eq!(parse_int(" 1"), None);
    assert_eq!(parse_long("9223372036854775807"), Some(i64::MAX));
    assert_eq!(parse_long("9223372036854775808"), None);
    for n in [0, 1, -1, 10, 99, -100, i32::MAX, i32::MIN] {
        assert_eq!(parse_int(&decimal_text(n as i64)), Some(n));
    }
}

#[test]
fn texts_are_searched_and_split() {
    assert!(starts_with("Ljava/lang", "Ljava/"));
    assert!(ends_with("app/GameView;", "/GameView;"));
    assert!(contains_text("abcabd", "bd"));
    assert!(!contains_text("abc", "cb"));
    assert_eq!(find_text("häßlich", "lich"), Some(5));
    assert_eq!(find_text("abc", "x"), None);
    assert_eq!(split_text("a,b,,c", ","), vec!["a", "b", "", "c"]);
    assert_eq!(split_text("", ","), vec![""]);
    assert_eq!(single_texts("ab"), vec!["a", "b"]);
    assert_eq!(slashes_for_stops("java.lang.String"), "java/lang/String");
    assert!(same_ignoring_case("AbC", "aBc"));
    assert!(!same_ignoring_case("Ä", "ä"));
}

#[test]
fn tables_keep_one_value_for_each_key() {
    let mut named: Vec<(String, Value)> = vec![];
    put_named(&mut named, "a", Value::Int(1));
    put_named(&mut named, "b", Value::Int(2));
    put_named(&mut named, "a", Value::Int(3));
    assert_eq!(get_named(&named, "a"), Some(&Value::Int(3)));
    assert_eq!(get_named(&named, "b"), Some(&Value::Int(2)));
    assert_eq!(get_named(&named, "c"), None);
    assert_eq!(named.len(), 2);
    let mut numbered: Vec<(u32, u32)> = vec![];
    put_id(&mut numbered, 4, 40);
    put_id(&mut numbered, 4, 41);
    assert_eq!(get_id(&numbered, 4), Some(41));
    assert_eq!(get_id(&numbered, 5), None);
}

#[test]
fn a_copy_of_an_object_holds_the_same() {
    let object = HeapObject::Instance {
        class_name: "Lapp/Thing;".to_string(),
        fields: vec![
            ("a".to_string(), Value::Int(1)),
            ("b".to_string(), Value::String("x".to_string())),
        ],
    };
    match object.clone() {
        HeapObject::Instance { class_name, fields } => {
            assert_eq!(class_name, "Lapp/Thing;");
            assert_eq!(get_named(&fields, "a"), Some(&Value::Int(1)));
            assert_eq!(get_named(&fields, "b"), Some(&Value::String("x".to_string())));
            assert_eq!(fields.len(), 2);
        }
        _ => panic!("no instance"),
    }
    let list = HeapObject::Collection(vec![Value::Null, Value::Long(2)]);
    match list.clone() {
        HeapObject::Collection(values) => assert_eq!(values, vec![Value::Null, Value::Long(2)]),
        _ => panic!("no list"),
    }
}

fn says(message: Message) -> VmError {
    VmError { pc: 3, opcode: 0x90, message }
}

fn about(v: Value) -> VmError {
    says(vec![Piece::Text("not ".to_string()), Piece::Debug(v)])
}

#[test]
fn errors_are_equal_as_they_read() {
    // Numbers count as they are written.
    let nan = Value::Float(f32::NAN.to_bits());
    let other_nan = Value::Float(0xffc0_0001);
    assert!(about(nan.clone()) == about(nan.clone()));
    assert!(about(nan.clone()) == about(other_nan.clone()));
    assert!(about(nan.clone()) != about(Value::Double(f64::NAN.to_bits())));
    assert!(about(Value::Float(0)) != about(Value::Float((-0.0f32).to_bits())));
    assert!(about(Value::Float(0)) == about(Value::Float(0)));
    assert!(about(Value::Double(0)) != about(Value::Double((-0.0f64).to_bits())));
    assert!(
        about(Value::Double(f64::NAN.to_bits())) == about(Value::Double((-f64::NAN).to_bits()))
    );
    // The bits of a register are written too.
    assert!(
        says(vec![Piece::Registers(vec![nan.clone()])])
            != says(vec![Piece::Registers(vec![other_nan])])
    );
    // The cuts do not count.
    let whole = failure(3, 0x90, "not Int(5) [Null, Float(");
    let cut = says(vec![
        Piece::Text("n".to_string()),
        Piece::Text("ot ".to_string()),
        Piece::Debug(Value::Int(5)),
        Piece::Text(String::new()),
        Piece::Text(" [Null, Float(".to_string()),
    ]);
    assert!(whole == cut);
    assert_eq!(whole.describe(&vec![]), cut.describe(&vec![]));
    assert!(
        says(vec![Piece::List(vec![Value::Null, nan.clone()])])
            == says(vec![
                Piece::Text("[Nu".to_string()),
                Piece::Text("ll, ".to_string()),
                Piece::Debug(nan),
                Piece::Text("]".to_string()),
            ])
    );
    // The place does.
    assert!(failure(3, 0x90, "a") != failure(4, 0x90, "a"));
    assert!(failure(3, 0x90, "a") != failure(3, 0x91, "a"));
    assert!(failure(3, 0x90, "a") != failure(3, 0x90, "b"));
    assert!(failure(3, 0x90, "a") == failure(3, 0x90, "").note("a".to_string()));
    assert!(messages_equal(&vec![], &vec![Piece::Text(String::new())]));
    assert!(!messages_equal(&vec![], &vec![Piece::List(vec![])]));
}

fn instance(class_name: &str, fields: &[(&str, Value)]) -> HeapObject {
    HeapObject::Instance {
        class_name: class_name.to_string(),
        fields: fields.iter().map(|(n, v)| (n.to_string(), v.clone())).collect(),
    }
}

#[test]
fn objects_are_equal_as_their_values_are() {
    let one = instance("La;", &[("x", Value::Int(1)), ("y", Value::Float(0))]);
    let two = instance(
        "La;",
        &[("y", Value::Float((-0.0f32).to_bits())), ("x", Value::Int(1))],
    );
    assert!(one == two && two == one);
    assert_eq!(one.clone(), one);
    assert!(one != instance("Lb;", &[("x", Value::Int(1)), ("y", Value::Float(0))]));
    assert!(one != instance("La;", &[("x", Value::Int(1))]));
    assert!(instance("La;", &[("x", Value::Int(1))]) != one);
    assert!(one != instance("La;", &[("x", Value::Int(2)), ("y", Value::Float(0))]));
    assert!(one != instance("La;", &[("x", Value::Int(1)), ("z", Value::Float(0))]));
    let nan = instance("La;", &[("x", Value::Float(f32::NAN.to_bits()))]);
    assert!(nan != nan.clone());
    let ints = |values: Vec<Value>| HeapObject::Array { component: "I".to_string(), values };
    assert_eq!(ints(vec![Value::Int(1)]), ints(vec![Value::Int(1)]));
    assert_ne!(ints(vec![Value::Int(1)]), ints(vec![Value::Int(1), Value::Int(1)]));
    assert_ne!(ints(vec![Value::Int(1)]), ints(vec![Value::Int(2)]));
    assert_ne!(
        ints(vec![]),
        HeapObject::Array { component: "J".to_string(), values: vec![] }
    );
    assert_ne!(ints(vec![]), HeapObject::Collection(vec![]));
    assert_eq!(HeapObject::Collection(vec![Value::Null]), HeapObject::Collection(vec![Value::Null]));
    assert_eq!(HeapObject::String("a".to_string()), HeapObject::String("a".to_string()));
    assert_ne!(HeapObject::String("a".to_string()), HeapObject::Class("a".to_string()));
    assert_ne!(HeapObject::Class("a".to_string()), HeapObject::Class("b".to_string()));
    assert_ne!(
        HeapObject::String("a".to_string()),
        HeapObject::StringBuilder("a".to_string())
    );
    assert_eq!(HeapObject::Boxed(Value::Double(0)), HeapObject::Boxed(Value::Double(1 << 63)));
    assert_ne!(HeapObject::Boxed(Value::Int(0)), HeapObject::Boxed(Value::Long(0)));
}
