//! One end-to-end pass through the whole pipeline: a module in text form is
//! assembled to binary, translated, compiled to machine bytes and linked,
//! and finally executed by the reference evaluator.

use pvf::eval::evaluate_export;
use pvf::intel_x64::IntelX64Compiler;
use pvf::raw::RawPvf;

fn run_i32(code: &str, args: Vec<u64>) -> i32 {
    let bytes = wat::parse_str(code).unwrap();
    let prepared = RawPvf::from_bytes(&bytes)
        .translate()
        .unwrap()
        .compile(&mut IntelX64Compiler::new())
        .unwrap();
    assert!(prepared.code_len() > 0);
    let exports = prepared.exported_funcs();
    assert!(exports.iter().any(|(n, _)| n == "_pvf_init"));
    assert!(exports.iter().any(|(n, _)| n == "test"));
    let ir = RawPvf::from_bytes(&bytes).translate().unwrap();
    evaluate_export(&ir, &"test".to_owned(), &args, 10_000_000).unwrap() as u32 as i32
}

#[test]
fn harness_runs_the_whole_pipeline() {
    assert_eq!(run_i32(r#"(module (func (export "test") (result i32) i32.const 7))"#, vec![]), 7);
    assert_eq!(
        run_i32(r#"(module (func (export "test") (param i32) (result i32) (i32.add (local.get 0) (i32.const 1))))"#, vec![41]),
        42
    );
}
