use mvlang::bytecode::{BytecodeHeader, BytecodeSerializable, BytecodeType};
use mvlang::data_type::DataType;
use mvlang::instruction::Instruction;
use mvlang::compiler::lexer::tokenize;
use mvlang::module::Module;
use mvlang::value::Value;

fn err_of<T>(r: Result<T, String>) -> String {
    match r {
        Err(e) => e,
        Ok(_) => panic!("Expected an error"),
    }
}

fn compile(source: &str) -> Module {
    Module::from_tokens(&tokenize(0, source).unwrap()).unwrap()
}

#[test]
fn module_bytecode_reads_back() {
    let m = compile("Int add(Int a, Int b) {\n  return a + b\n}\nInt main() {\n  let s = 'text'\n  return add(1, 2)\n}\n");
    let bytes = m.to_bytecode();
    assert_eq!(&bytes[0..7], &[0x00, 0x08, 0x6d, 0x76, 0x00, 0x62, 0x08]);
    assert_eq!(bytes[7], 1);
    let back = Module::from_bytecode_bytes(&bytes).unwrap();
    assert_eq!(back.to_bytecode(), bytes);
    assert_eq!(back.get_slot("main"), Some(1));
    assert_eq!(back.get_slot("add"), Some(0));
    assert_eq!(back.get_sources().len(), 2);
}

#[test]
fn truncated_bytecode_is_refused() {
    let m = compile("Int main() {\n  return 1\n}\n");
    let bytes = m.to_bytecode();
    for cut in [0, 3] {
        assert_eq!(err_of(Module::from_bytecode_bytes(&bytes[..cut])), "Not enough bytes for header");
    }
    for cut in [7, 12, bytes.len() - 1] {
        assert_eq!(err_of(Module::from_bytecode_bytes(&bytes[..cut])), "Unexpected end of bytecode");
    }
}

#[test]
fn other_versions_are_refused() {
    let m = compile("Int main() {\n  return 1\n}\n");
    let mut bytes = m.to_bytecode();
    bytes[7] = 2;
    assert_eq!(err_of(Module::from_bytecode_bytes(&bytes)), "Unsupported bytecode version: 2");
    bytes[7] = 1;
    bytes[2] = 0x6e;
    assert_eq!(err_of(Module::from_bytecode_bytes(&bytes)), "Invalid magic number");
}

#[test]
fn header_layout() {
    let h = BytecodeHeader::new(Some(3), 5);
    let mut buffer = Vec::new();
    h.write_bytecode(&mut buffer);
    assert_eq!(buffer, vec![0x00, 0x08, 0x6d, 0x76, 0x00, 0x62, 0x08, 1, 1, 3, 0, 0, 0, 5, 0, 0, 0]);
    let mut cursor = 0;
    let back = BytecodeHeader::from_bytecode(&buffer, &mut cursor).unwrap();
    assert_eq!(back, h);
    assert_eq!(cursor, buffer.len());
}

#[test]
fn values_read_back() {
    let values = vec![Value::Void, Value::Bool(true), Value::Int(-5), Value::Float(2.5f64.to_bits()), Value::String("héllo".to_string())];
    let mut buffer = Vec::new();
    for v in &values {
        v.write_bytecode(&mut buffer);
    }
    let mut cursor = 0;
    for v in &values {
        let back = Value::from_bytecode(&buffer, &mut cursor).unwrap();
        assert_eq!(format!("{:?}", back), format!("{:?}", v));
    }
    assert_eq!(cursor, buffer.len());
}

#[test]
fn invalid_utf8_string_is_refused() {
    let bytes = vec![2, 0, 0, 0, 0xff, 0xfe];
    let mut cursor = 0;
    assert_eq!(
        err_of(String::from_bytecode(&bytes, &mut cursor)),
        "Invalid UTF-8 string: invalid utf-8 sequence of 1 bytes from index 0"
    );
    let mut cursor = 0;
    assert_eq!(err_of(String::from_bytecode(&[9, 0, 0, 0, b'a'], &mut cursor)), "Not enough bytes for string data");
}

#[test]
fn malformed_items_name_what_is_wrong() {
    let mut cursor = 0;
    assert_eq!(err_of(bool::from_bytecode(&[7], &mut cursor)), "Invalid boolean value: 7");
    let mut cursor = 0;
    assert_eq!(err_of(Value::from_bytecode(&[9], &mut cursor)), "Unknown type identifier: 9");
    let mut cursor = 0;
    assert_eq!(err_of(Value::from_bytecode(&[1, 2], &mut cursor)), "Invalid boolean value: 2");
    let mut cursor = 0;
    assert_eq!(err_of(DataType::from_bytecode(&[5, 9], &mut cursor)), "Unknown DataType id: 9");
    let mut cursor = 0;
    assert_eq!(err_of(Instruction::from_bytecode(&[200], &mut cursor)), "Unknown instruction ID: 200");
    let mut cursor = 0;
    assert_eq!(
        err_of(Instruction::from_bytecode(&[24, 3, 0, 0, 0, b'f', b'o', b'o', 1, 0, 0, 0], &mut cursor)),
        "Not a builtin function"
    );
    let mut cursor = 0;
    assert_eq!(err_of(u32::from_bytecode(&[1, 2, 3], &mut cursor)), "Unexpected end of bytecode");
    let mut cursor = 0;
    assert_eq!(err_of(BytecodeType::from_bytecode(&[], &mut cursor)), "Not enough bytes for BytecodeType");
    let mut cursor = 0;
    assert_eq!(err_of(BytecodeType::from_bytecode(&[0, 1], &mut cursor)), "Not enough bytes for Executable main_slot");
    let mut cursor = 0;
    assert_eq!(err_of(BytecodeType::from_bytecode(&[4], &mut cursor)), "Unknown BytecodeType ID: 4");
    let mut cursor = 0;
    assert!(matches!(BytecodeType::from_bytecode(&[0, 7, 0, 0, 0], &mut cursor), Ok(BytecodeType::Executable { main_slot: 7 })));
    assert_eq!(cursor, 5);
}

#[test]
fn a_list_type_is_written_as_its_id_alone() {
    let mut buffer = Vec::new();
    DataType::list_of(DataType::Int).write_bytecode(&mut buffer);
    assert_eq!(buffer, vec![5]);
    let mut cursor = 0;
    let t = DataType::from_bytecode(&[5, 2], &mut cursor).unwrap();
    assert!(matches!(t, DataType::List { item_type: Some(ref i) } if matches!(**i, DataType::Int)));
    assert_eq!(cursor, 2);
}
