//! Cases beyond the basic operation set: branch tables and their selector
//! clamping, memory growth, runtime traps, each error kind, the decoder's
//! integer readers, and the shape of the emitted prologue bytes.

use pvf::decode::{read_i32, read_u32};
use pvf::eval::{evaluate_export, EvalError};
use pvf::intel_x64::IntelX64Compiler;
use pvf::raw::RawPvf;
use pvf::PvfError;

fn translate(code: &str) -> pvf::IrPvf {
    RawPvf::from_bytes(&wat::parse_str(code).unwrap()).translate().unwrap()
}

fn run(code: &str, args: Vec<u64>) -> Result<u64, EvalError> {
    let bytes = wat::parse_str(code).unwrap();
    let prepared = RawPvf::from_bytes(&bytes)
        .translate()
        .unwrap()
        .compile(&mut IntelX64Compiler::new())
        .unwrap();
    assert!(prepared.code_len() > 0);
    let ir = RawPvf::from_bytes(&bytes).translate().unwrap();
    evaluate_export(&ir, &"test".to_owned(), &args, 10_000_000)
}

const BR_TABLE_MODULE: &str = r#"
(module
    (func (export "test") (param i32) (result i32)
        (block (result i32)
            (block (result i32)
                (block (result i32)
                    (i32.const 7)
                    (br_table 0 1 2 (local.get 0))
                )
                (drop)
                (i32.const 10)
            )
            (drop)
            (i32.const 20)
        )
    )
)"#;

#[test]
fn br_table_selects_each_target() {
    // selector zero leaves through the innermost block and picks up both
    // replacement values on the way out
    assert_eq!(run(BR_TABLE_MODULE, vec![0]).unwrap() as u32, 20);
    assert_eq!(run(BR_TABLE_MODULE, vec![1]).unwrap() as u32, 20);
    assert_eq!(run(BR_TABLE_MODULE, vec![2]).unwrap() as u32, 7);
}

#[test]
fn br_table_clamps_large_selector() {
    // a selector past the end lands on the last entry, the default target
    assert_eq!(
        run(BR_TABLE_MODULE, vec![3]).unwrap(),
        run(BR_TABLE_MODULE, vec![2]).unwrap()
    );
    assert_eq!(
        run(BR_TABLE_MODULE, vec![0xFFFF]).unwrap(),
        run(BR_TABLE_MODULE, vec![2]).unwrap()
    );
}

#[test]
fn memory_size_and_grow() {
    let module = r#"
    (module
        (func (export "test") (result i32)
            (drop (memory.grow (i32.const 1)))
            memory.size
        )
        (memory 1 4)
    )"#;
    assert_eq!(run(module, vec![]).unwrap() as u32, 2);
    let too_much = r#"
    (module
        (func (export "test") (result i32)
            (memory.grow (i32.const 100))
        )
        (memory 1 4)
    )"#;
    assert_eq!(run(too_much, vec![]).unwrap() as u32, 0xFFFFFFFF);
    let old_size = r#"
    (module
        (func (export "test") (result i32)
            (memory.grow (i32.const 2))
        )
        (memory 1 4)
    )"#;
    assert_eq!(run(old_size, vec![]).unwrap() as u32, 1);
}

#[test]
fn division_by_zero_traps() {
    let module = r#"(module (func (export "test") (result i32) (i32.div_u (i32.const 1) (i32.const 0))))"#;
    assert_eq!(run(module, vec![]), Err(EvalError::Trap));
    let signed = r#"(module (func (export "test") (result i32) (i32.div_s (i32.const -2147483648) (i32.const -1))))"#;
    assert_eq!(run(signed, vec![]), Err(EvalError::Trap));
}

#[test]
fn unreachable_traps() {
    let module = r#"(module (func (export "test") (result i32) unreachable))"#;
    assert_eq!(run(module, vec![]), Err(EvalError::Trap));
}

#[test]
fn signed_remainder_of_smallest_value() {
    let module = r#"(module (func (export "test") (result i32) (i32.rem_s (i32.const -2147483648) (i32.const -1))))"#;
    assert_eq!(run(module, vec![]).unwrap() as u32, 0);
}

#[test]
fn missing_export_is_reported() {
    let ir = translate(r#"(module (func (export "test") (result i32) i32.const 1))"#);
    let r = evaluate_export(&ir, &"absent".to_owned(), &vec![], 1000);
    assert_eq!(r, Err(EvalError::ExportNotFound));
}

#[test]
fn bad_magic_is_a_parse_error() {
    let r = RawPvf::from_bytes(&[0x00, 0x61, 0x73, 0x6d, 0x02, 0x00, 0x00, 0x00]).translate();
    assert!(matches!(r, Err(PvfError::ParseError(_))));
    let r = RawPvf::from_bytes(&[0x7f, 0x45, 0x4c, 0x46, 0x01, 0x00, 0x00, 0x00]).translate();
    assert!(matches!(r, Err(PvfError::ParseError(_))));
}

#[test]
fn unsupported_content_is_a_validation_error() {
    // a floating-point constant lies outside the supported subset
    let bytes = wat::parse_str(
        r#"(module (func (export "test") (result f32) f32.const 1))"#,
    )
    .unwrap();
    let r = RawPvf::from_bytes(&bytes).translate();
    assert!(matches!(r, Err(PvfError::ValidationError(_))));
}

#[test]
fn module_translation_resolves_imports_first() {
    let m = pvf::wasm::WasmModule {
        types: vec![pvf::ir::IrSignature { params: 0, results: 1 }],
        func_imports: vec![pvf::wasm::WasmImport {
            module: "env".to_owned(),
            name: "f".to_owned(),
            type_index: 0,
        }],
        imported_globals: 0,
        func_type_indices: vec![],
        tables: vec![],
        memory: None,
        globals: vec![],
        exports: vec![],
        elements: vec![],
        datas: vec![],
        code: vec![],
    };
    let r = RawPvf::translate_module(&m, &None, 0);
    assert!(matches!(r, Err(PvfError::UnresolvedImport(_))));
    let table = vec![("env".to_owned(), "f".to_owned(), 0x1000u64)];
    let r = RawPvf::translate_module(&m, &Some(table), 0);
    assert!(r.is_ok());
}

#[test]
fn sections_out_of_order_are_a_parse_error() {
    // an import section (id 2) followed by a type section (id 1)
    let bytes = vec![
        0x00, 0x61, 0x73, 0x6d, 0x01, 0x00, 0x00, 0x00, // magic and version
        0x02, 0x01, 0x00, // import section, empty
        0x01, 0x01, 0x00, // type section, empty: out of order
    ];
    let r = RawPvf::from_bytes(&bytes).translate();
    assert!(matches!(r, Err(PvfError::ParseError(_))));
}

#[test]
fn memory_maximum_below_minimum_is_rejected() {
    // a memory section declaring two initial pages but a maximum of one
    let bytes = vec![
        0x00, 0x61, 0x73, 0x6d, 0x01, 0x00, 0x00, 0x00, // magic and version
        0x05, 0x04, 0x01, 0x01, 0x02, 0x01, // memory section: min 2, max 1
    ];
    let r = RawPvf::from_bytes(&bytes).translate();
    assert!(matches!(r, Err(PvfError::ValidationError(_))));
}

#[test]
fn unresolved_import_is_reported() {
    let bytes = wat::parse_str(
        r#"(module (import "env" "missing" (func (result i32))) (func (export "test") (result i32) i32.const 1))"#,
    )
    .unwrap();
    let r = RawPvf::from_bytes(&bytes).translate();
    match r {
        Err(PvfError::UnresolvedImport(name)) => assert_eq!(name, "env::missing"),
        other => panic!("expected an unresolved import, got {:?}", other.is_ok()),
    }
}

#[test]
fn resolved_import_translates() {
    let bytes = wat::parse_str(
        r#"(module (import "env" "add2" (func (param i32) (result i32))) (func (export "test") (result i32) i32.const 1))"#,
    )
    .unwrap();
    let mut raw = RawPvf::from_bytes(&bytes);
    raw.set_import_resolver(vec![("env".to_owned(), "add2".to_owned(), 0x1000)]);
    let ir = raw.translate().unwrap();
    // the import occupies the first function slot; compilation still links
    let prepared = ir.compile(&mut IntelX64Compiler::new()).unwrap();
    assert!(prepared.code_len() > 0);
}

#[test]
fn prologue_bytes_are_emitted() {
    let bytes = wat::parse_str(r#"(module (func (export "test") (result i32) i32.const 42))"#)
        .unwrap();
    let prepared = RawPvf::from_bytes(&bytes)
        .translate()
        .unwrap()
        .compile(&mut IntelX64Compiler::new())
        .unwrap();
    let exports = prepared.exported_funcs();
    let (_, off) = exports
        .iter()
        .find(|(n, _)| n == "test")
        .expect("the export is present")
        .clone();
    let code = prepared.code();
    // push r12; push r15; movabs r15, imm64 with its relocation bytes
    assert_eq!(&code[off..off + 6], &[0x41, 0x54, 0x41, 0x57, 0x49, 0xBF]);
    assert_eq!(&code[off + 6..off + 14], &[0, 0, 0, 0, 0, 0, 0, 0]);
}

#[test]
fn integer_readers_decode_exact_values() {
    // the classic multi-group example
    assert_eq!(read_u32(&[0xE5, 0x8E, 0x26], 0).unwrap(), (624485, 3));
    assert_eq!(read_u32(&[0x00], 0).unwrap(), (0, 1));
    assert_eq!(read_u32(&[0x7F], 0).unwrap(), (127, 1));
    assert_eq!(read_i32(&[0x7F], 0).unwrap(), (-1, 1));
    assert_eq!(read_i32(&[0xC0, 0xBB, 0x78], 0).unwrap(), (-123456, 3));
    assert_eq!(read_i32(&[0x2A], 0).unwrap(), (42, 1));
    // a truncated item is refused
    assert!(read_u32(&[0x80], 0).is_err());
}

#[test]
fn names_may_hold_any_text() {
    // the export name holds a two-byte character, written here in escapes
    let code = r#"(module (func (export "pr\c3\bcfung") (result i32) i32.const 42))"#;
    let name = String::from_utf8(vec![0x70, 0x72, 0xc3, 0xbc, 0x66, 0x75, 0x6e, 0x67]).unwrap();
    let ir = translate(code);
    let r = evaluate_export(&ir, &name, &vec![], 1000);
    assert_eq!(r.unwrap() as u32, 42);
}

#[test]
fn error_tags_name_each_kind() {
    assert_eq!(PvfError::ExportNotFound.tag(), "export-not-found");
    assert_eq!(PvfError::ParseError("x".to_owned()).tag(), "parse");
    assert_eq!(PvfError::ValidationError("x".to_owned()).tag(), "validation");
    assert_eq!(PvfError::FilesystemError("x".to_owned()).tag(), "filesystem");
    assert_eq!(PvfError::UnresolvedImport("x".to_owned()).tag(), "unresolved-import");
}

#[test]
fn store_load_round_trips_every_width() {
    let module = r#"
    (module
        (func (export "test") (result i64)
            (i64.store (i32.const 64) (i64.const 0x44332211DDCCBBAA))
            (i64.load (i32.const 64))
        )
        (memory 1)
    )"#;
    assert_eq!(run(module, vec![]).unwrap(), 0x44332211DDCCBBAA);
    let narrow = r#"
    (module
        (func (export "test") (result i32)
            (i32.store16 (i32.const 64) (i32.const 0x1234BBAA))
            (i32.load16_u (i32.const 64))
        )
        (memory 1)
    )"#;
    assert_eq!(run(narrow, vec![]).unwrap() as u32, 0xBBAA);
    let signed = r#"
    (module
        (func (export "test") (result i32)
            (i32.store8 (i32.const 64) (i32.const 0x80))
            (i32.load8_s (i32.const 64))
        )
        (memory 1)
    )"#;
    assert_eq!(run(signed, vec![]).unwrap() as u32 as i32, -128);
}

#[test]
fn data_segments_reach_memory() {
    let module = r#"
    (module
        (func (export "test") (result i32)
            (i32.load8_u (i32.const 18))
        )
        (memory 1)
        (data (i32.const 16) "\01\02\2a\04")
    )"#;
    assert_eq!(run(module, vec![]).unwrap() as u32, 42);
}
