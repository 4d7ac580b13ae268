//! Integer arithmetic and comparisons, 32- and 64-bit.

use pvf::eval::evaluate_export;
use pvf::intel_x64::IntelX64Compiler;
use pvf::raw::RawPvf;

fn run(code: &str, args: Vec<u64>) -> u64 {
    let bytes = wat::parse_str(code).unwrap();
    let prepared = RawPvf::from_bytes(&bytes)
        .translate()
        .unwrap()
        .compile(&mut IntelX64Compiler::new())
        .unwrap();
    assert!(prepared.code_len() > 0);
    let ir = RawPvf::from_bytes(&bytes).translate().unwrap();
    evaluate_export(&ir, &"test".to_owned(), &args, 10_000_000).unwrap()
}

fn run_i32(code: &str) -> i32 {
    run(code, vec![]) as u32 as i32
}

fn run_u32(code: &str) -> u32 {
    run(code, vec![]) as u32
}

fn run_i64(code: &str) -> i64 {
    run(code, vec![]) as i64
}

fn run_u64(code: &str) -> u64 {
    run(code, vec![])
}

#[test]
fn i32_math() {
    assert_eq!(run_u32(r#"(module (func (export "test") (result i32) (i32.add (i32.const 11) (i32.const 31))))"#), 42);
    assert_eq!(run_u32(r#"(module (func (export "test") (result i32) (i32.add (i32.const 86) (i32.const -44))))"#), 42);
    assert_eq!(run_i32(r#"(module (func (export "test") (result i32) (i32.add (i32.const -22) (i32.const -20))))"#), -42);
    assert_eq!(run_u32(r#"(module (func (export "test") (result i32) (i32.sub (i32.const 86) (i32.const 44))))"#), 42);
    assert_eq!(run_i32(r#"(module (func (export "test") (result i32) (i32.sub (i32.const -22) (i32.const 20))))"#), -42);
    assert_eq!(run_u32(r#"(module (func (export "test") (result i32) (i32.sub (i32.const -11) (i32.const -53))))"#), 42);
    assert_eq!(run_i32(r#"(module (func (export "test") (result i32) (i32.mul (i32.const 2) (i32.const 21))))"#), 42);
    assert_eq!(run_i32(r#"(module (func (export "test") (result i32) (i32.mul (i32.const -2) (i32.const -21))))"#), 42);
    assert_eq!(run_i32(r#"(module (func (export "test") (result i32) (i32.mul (i32.const -2) (i32.const 21))))"#), -42);
    assert_eq!(run_i32(r#"(module (func (export "test") (result i32) (i32.mul (i32.const 0x55555555) (i32.const 7))))"#), 0x55555553);
    assert_eq!(run_i32(r#"(module (func (export "test") (result i32) (i32.div_u (i32.const 126) (i32.const 3))))"#), 42);
    assert_eq!(run_i32(r#"(module (func (export "test") (result i32) (i32.div_u (i32.const -1) (i32.const 5893))))"#), 728825);
    assert_eq!(run_i32(r#"(module (func (export "test") (result i32) (i32.div_u (i32.const 42) (i32.const 42))))"#), 1);
    assert_eq!(run_i32(r#"(module (func (export "test") (result i32) (i32.div_u (i32.const 42) (i32.const -1))))"#), 0);
    assert_eq!(run_i32(r#"(module (func (export "test") (result i32) (i32.div_s (i32.const 126) (i32.const 3))))"#), 42);
    assert_eq!(run_i32(r#"(module (func (export "test") (result i32) (i32.div_s (i32.const 126) (i32.const -3))))"#), -42);
    assert_eq!(run_i32(r#"(module (func (export "test") (result i32) (i32.div_s (i32.const -1) (i32.const 5893))))"#), 0);
    assert_eq!(run_i32(r#"(module (func (export "test") (result i32) (i32.div_s (i32.const 42) (i32.const 42))))"#), 1);
    assert_eq!(run_i32(r#"(module (func (export "test") (result i32) (i32.div_s (i32.const 42) (i32.const -1))))"#), -42);
    assert_eq!(run_i32(r#"(module (func (export "test") (result i32) (i32.rem_u (i32.const 42) (i32.const 42))))"#), 0);
    assert_eq!(run_i32(r#"(module (func (export "test") (result i32) (i32.rem_u (i32.const 42) (i32.const 3))))"#), 0);
    assert_eq!(run_i32(r#"(module (func (export "test") (result i32) (i32.rem_u (i32.const 42) (i32.const 5))))"#), 2);
    assert_eq!(run_i32(r#"(module (func (export "test") (result i32) (i32.rem_u (i32.const 42) (i32.const -5))))"#), 42);
    assert_eq!(run_i32(r#"(module (func (export "test") (result i32) (i32.rem_s (i32.const 42) (i32.const 5))))"#), 2);
    assert_eq!(run_i32(r#"(module (func (export "test") (result i32) (i32.rem_s (i32.const 42) (i32.const -5))))"#), 2);
    assert_eq!(run_i32(r#"(module (func (export "test") (result i32) (i32.rem_s (i32.const -42) (i32.const 5))))"#), -2);
}

#[test]
fn i64_math() {
    assert_eq!(run_u64(r#"(module (func (export "test") (result i64) (i64.add (i64.const 4242424242424200) (i64.const 42))))"#), 4242424242424242);
    assert_eq!(run_u64(r#"(module (func (export "test") (result i64) (i64.add (i64.const 4242424242424284) (i64.const -42))))"#), 4242424242424242);
    assert_eq!(run_i64(r#"(module (func (export "test") (result i64) (i64.add (i64.const -4242424242424200) (i64.const -42))))"#), -4242424242424242);
    assert_eq!(run_u64(r#"(module (func (export "test") (result i64) (i64.sub (i64.const 8686868686868686) (i64.const 4444444444444444))))"#), 4242424242424242);
    assert_eq!(run_i64(r#"(module (func (export "test") (result i64) (i64.sub (i64.const -2222222222222222) (i64.const 2020202020202020))))"#), -4242424242424242);
    assert_eq!(run_u64(r#"(module (func (export "test") (result i64) (i64.sub (i64.const -1111111111111111) (i64.const -5353535353535353))))"#), 4242424242424242);
    assert_eq!(run_i64(r#"(module (func (export "test") (result i64) (i64.mul (i64.const -2) (i64.const -21))))"#), 42);
    assert_eq!(run_i64(r#"(module (func (export "test") (result i64) (i64.mul (i64.const -2) (i64.const 21))))"#), -42);
    assert_eq!(run_i64(r#"(module (func (export "test") (result i64) (i64.mul (i64.const 0x5555555555) (i64.const 7))))"#), 0x25555555553);
    assert_eq!(run_i64(r#"(module (func (export "test") (result i64) (i64.mul (i64.const 0x5555555555555555) (i64.const 7))))"#), 0x5555555555555553);
    assert_eq!(run_i64(r#"(module (func (export "test") (result i64) (i64.div_u (i64.const 126) (i64.const 3))))"#), 42);
    assert_eq!(run_i64(r#"(module (func (export "test") (result i64) (i64.div_u (i64.const -1) (i64.const 283934641))))"#), 64968275828);
    assert_eq!(run_i64(r#"(module (func (export "test") (result i64) (i64.div_u (i64.const 42) (i64.const 42))))"#), 1);
    assert_eq!(run_i64(r#"(module (func (export "test") (result i64) (i64.div_u (i64.const 42) (i64.const -1))))"#), 0);
    assert_eq!(run_i64(r#"(module (func (export "test") (result i64) (i64.div_s (i64.const 126) (i64.const 3))))"#), 42);
    assert_eq!(run_i64(r#"(module (func (export "test") (result i64) (i64.div_s (i64.const 126) (i64.const -3))))"#), -42);
    assert_eq!(run_i64(r#"(module (func (export "test") (result i64) (i64.div_s (i64.const -1) (i64.const 283934641))))"#), 0);
    assert_eq!(run_i64(r#"(module (func (export "test") (result i64) (i64.div_s (i64.const 42) (i64.const 42))))"#), 1);
    assert_eq!(run_i64(r#"(module (func (export "test") (result i64) (i64.div_s (i64.const 42) (i64.const -1))))"#), -42);
    assert_eq!(run_i64(r#"(module (func (export "test") (result i64) (i64.rem_u (i64.const 42) (i64.const 42))))"#), 0);
    assert_eq!(run_i64(r#"(module (func (export "test") (result i64) (i64.rem_u (i64.const 42) (i64.const 3))))"#), 0);
    assert_eq!(run_i64(r#"(module (func (export "test") (result i64) (i64.rem_u (i64.const 42) (i64.const 5))))"#), 2);
    assert_eq!(run_i64(r#"(module (func (export "test") (result i64) (i64.rem_u (i64.const 42) (i64.const -5))))"#), 42);
    assert_eq!(run_i64(r#"(module (func (export "test") (result i64) (i64.rem_s (i64.const 42) (i64.const 5))))"#), 2);
    assert_eq!(run_i64(r#"(module (func (export "test") (result i64) (i64.rem_s (i64.const 42) (i64.const -5))))"#), 2);
    assert_eq!(run_i64(r#"(module (func (export "test") (result i64) (i64.rem_s (i64.const -42) (i64.const 5))))"#), -2);
}

#[test]
fn i32_cmp() {
    assert_eq!(run_u32(r#"(module (func (export "test") (result i32) (i32.eq (i32.const 42) (i32.const 42))))"#), 1);
    assert_eq!(run_u32(r#"(module (func (export "test") (result i32) (i32.eq (i32.const 42) (i32.const 40))))"#), 0);

    assert_eq!(run_u32(r#"(module (func (export "test") (result i32) (i32.ne (i32.const 42) (i32.const 42))))"#), 0);
    assert_eq!(run_u32(r#"(module (func (export "test") (result i32) (i32.ne (i32.const 42) (i32.const 40))))"#), 1);

    assert_eq!(run_u32(r#"(module (func (export "test") (result i32) (i32.lt_u (i32.const 40) (i32.const 42))))"#), 1);
    assert_eq!(run_u32(r#"(module (func (export "test") (result i32) (i32.lt_u (i32.const 42) (i32.const 40))))"#), 0);
    assert_eq!(run_u32(r#"(module (func (export "test") (result i32) (i32.lt_u (i32.const 42) (i32.const -42))))"#), 1);
    assert_eq!(run_u32(r#"(module (func (export "test") (result i32) (i32.lt_u (i32.const 42) (i32.const 42))))"#), 0);
    assert_eq!(run_u32(r#"(module (func (export "test") (result i32) (i32.lt_s (i32.const -42) (i32.const 42))))"#), 1);
    assert_eq!(run_u32(r#"(module (func (export "test") (result i32) (i32.lt_s (i32.const 40) (i32.const 42))))"#), 1);
    assert_eq!(run_u32(r#"(module (func (export "test") (result i32) (i32.lt_s (i32.const 42) (i32.const -42))))"#), 0);
    assert_eq!(run_u32(r#"(module (func (export "test") (result i32) (i32.lt_s (i32.const 42) (i32.const 40))))"#), 0);
    assert_eq!(run_u32(r#"(module (func (export "test") (result i32) (i32.lt_s (i32.const 42) (i32.const 42))))"#), 0);

    assert_eq!(run_u32(r#"(module (func (export "test") (result i32) (i32.gt_u (i32.const 40) (i32.const 42))))"#), 0);
    assert_eq!(run_u32(r#"(module (func (export "test") (result i32) (i32.gt_u (i32.const 42) (i32.const 40))))"#), 1);
    assert_eq!(run_u32(r#"(module (func (export "test") (result i32) (i32.gt_u (i32.const 42) (i32.const -42))))"#), 0);
    assert_eq!(run_u32(r#"(module (func (export "test") (result i32) (i32.gt_u (i32.const 42) (i32.const 42))))"#), 0);
    assert_eq!(run_u32(r#"(module (func (export "test") (result i32) (i32.gt_s (i32.const -42) (i32.const 42))))"#), 0);
    assert_eq!(run_u32(r#"(module (func (export "test") (result i32) (i32.gt_s (i32.const 40) (i32.const 42))))"#), 0);
    assert_eq!(run_u32(r#"(module (func (export "test") (result i32) (i32.gt_s (i32.const 42) (i32.const -42))))"#), 1);
    assert_eq!(run_u32(r#"(module (func (export "test") (result i32) (i32.gt_s (i32.const 42) (i32.const 40))))"#), 1);
    assert_eq!(run_u32(r#"(module (func (export "test") (result i32) (i32.gt_s (i32.const 42) (i32.const 42))))"#), 0);

    assert_eq!(run_u32(r#"(module (func (export "test") (result i32) (i32.le_u (i32.const 40) (i32.const 42))))"#), 1);
    assert_eq!(run_u32(r#"(module (func (export "test") (result i32) (i32.le_u (i32.const 42) (i32.const 40))))"#), 0);
    assert_eq!(run_u32(r#"(module (func (export "test") (result i32) (i32.le_u (i32.const 42) (i32.const -42))))"#), 1);
    assert_eq!(run_u32(r#"(module (func (export "test") (result i32) (i32.le_u (i32.const 42) (i32.const 42))))"#), 1);
    assert_eq!(run_u32(r#"(module (func (export "test") (result i32) (i32.le_s (i32.const -42) (i32.const 42))))"#), 1);
    assert_eq!(run_u32(r#"(module (func (export "test") (result i32) (i32.le_s (i32.const 40) (i32.const 42))))"#), 1);
    assert_eq!(run_u32(r#"(module (func (export "test") (result i32) (i32.le_s (i32.const 42) (i32.const -42))))"#), 0);
    assert_eq!(run_u32(r#"(module (func (export "test") (result i32) (i32.le_s (i32.const 42) (i32.const 40))))"#), 0);
    assert_eq!(run_u32(r#"(module (func (export "test") (result i32) (i32.le_s (i32.const 42) (i32.const 42))))"#), 1);

    assert_eq!(run_u32(r#"(module (func (export "test") (result i32) (i32.ge_u (i32.const 40) (i32.const 42))))"#), 0);
    assert_eq!(run_u32(r#"(module (func (export "test") (result i32) (i32.ge_u (i32.const 42) (i32.const 40))))"#), 1);
    assert_eq!(run_u32(r#"(module (func (export "test") (result i32) (i32.ge_u (i32.const 42) (i32.const -42))))"#), 0);
    assert_eq!(run_u32(r#"(module (func (export "test") (result i32) (i32.ge_u (i32.const 42) (i32.const 42))))"#), 1);
    assert_eq!(run_u32(r#"(module (func (export "test") (result i32) (i32.ge_s (i32.const -42) (i32.const 42))))"#), 0);
    assert_eq!(run_u32(r#"(module (func (export "test") (result i32) (i32.ge_s (i32.const 40) (i32.const 42))))"#), 0);
    assert_eq!(run_u32(r#"(module (func (export "test") (result i32) (i32.ge_s (i32.const 42) (i32.const -42))))"#), 1);
    assert_eq!(run_u32(r#"(module (func (export "test") (result i32) (i32.ge_s (i32.const 42) (i32.const 40))))"#), 1);
    assert_eq!(run_u32(r#"(module (func (export "test") (result i32) (i32.ge_s (i32.const 42) (i32.const 42))))"#), 1);

    assert_eq!(run_u32(r#"(module (func (export "test") (result i32) (i32.eqz (i32.sub (i32.const 42) (i32.const 42)))))"#), 1);
    assert_eq!(run_u32(r#"(module (func (export "test") (result i32) (i32.eqz (i32.sub (i32.const 40) (i32.const 42)))))"#), 0);
}

#[test]
fn i64_cmp() {
    assert_eq!(run_u32(r#"(module (func (export "test") (result i32) (i64.eq (i64.const 4242424242424242) (i64.const 4242424242424242))))"#), 1);
    assert_eq!(run_u32(r#"(module (func (export "test") (result i32) (i64.eq (i64.const 4242424242424242) (i64.const 1576323506))))"#), 0);

    assert_eq!(run_u32(r#"(module (func (export "test") (result i32) (i64.ne (i64.const 4242424242424242) (i64.const 4242424242424242))))"#), 0);
    assert_eq!(run_u32(r#"(module (func (export "test") (result i32) (i64.ne (i64.const 4242424242424242) (i64.const 1576323506))))"#), 1);

    assert_eq!(run_u32(r#"(module (func (export "test") (result i32) (i64.lt_u (i64.const 4040404040404040) (i64.const 4242424242424242))))"#), 1);
    assert_eq!(run_u32(r#"(module (func (export "test") (result i32) (i64.lt_u (i64.const 4242424242424242) (i64.const 4040404040404040))))"#), 0);
    assert_eq!(run_u32(r#"(module (func (export "test") (result i32) (i64.lt_u (i64.const 4242424242424242) (i64.const -4242424242424242))))"#), 1);
    assert_eq!(run_u32(r#"(module (func (export "test") (result i32) (i64.lt_u (i64.const 4242424242424242) (i64.const 4242424242424242))))"#), 0);
    assert_eq!(run_u32(r#"(module (func (export "test") (result i32) (i64.lt_s (i64.const -4242424242424242) (i64.const 4242424242424242))))"#), 1);
    assert_eq!(run_u32(r#"(module (func (export "test") (result i32) (i64.lt_s (i64.const 4040404040404040) (i64.const 4242424242424242))))"#), 1);
    assert_eq!(run_u32(r#"(module (func (export "test") (result i32) (i64.lt_s (i64.const 4242424242424242) (i64.const -4242424242424242))))"#), 0);
    assert_eq!(run_u32(r#"(module (func (export "test") (result i32) (i64.lt_s (i64.const 4242424242424242) (i64.const 4040404040404040))))"#), 0);
    assert_eq!(run_u32(r#"(module (func (export "test") (result i32) (i64.lt_s (i64.const 4242424242424242) (i64.const 4242424242424242))))"#), 0);

    assert_eq!(run_u32(r#"(module (func (export "test") (result i32) (i64.gt_u (i64.const 4040404040404040) (i64.const 4242424242424242))))"#), 0);
    assert_eq!(run_u32(r#"(module (func (export "test") (result i32) (i64.gt_u (i64.const 4242424242424242) (i64.const 4040404040404040))))"#), 1);
    assert_eq!(run_u32(r#"(module (func (export "test") (result i32) (i64.gt_u (i64.const 4242424242424242) (i64.const -4242424242424242))))"#), 0);
    assert_eq!(run_u32(r#"(module (func (export "test") (result i32) (i64.gt_u (i64.const 4242424242424242) (i64.const 4242424242424242))))"#), 0);
    assert_eq!(run_u32(r#"(module (func (export "test") (result i32) (i64.gt_s (i64.const -4242424242424242) (i64.const 4242424242424242))))"#), 0);
    assert_eq!(run_u32(r#"(module (func (export "test") (result i32) (i64.gt_s (i64.const 4040404040404040) (i64.const 4242424242424242))))"#), 0);
    assert_eq!(run_u32(r#"(module (func (export "test") (result i32) (i64.gt_s (i64.const 4242424242424242) (i64.const -4242424242424242))))"#), 1);
    assert_eq!(run_u32(r#"(module (func (export "test") (result i32) (i64.gt_s (i64.const 4242424242424242) (i64.const 4040404040404040))))"#), 1);
    assert_eq!(run_u32(r#"(module (func (export "test") (result i32) (i64.gt_s (i64.const 4242424242424242) (i64.const 4242424242424242))))"#), 0);

    assert_eq!(run_u32(r#"(module (func (export "test") (result i32) (i64.le_u (i64.const 4040404040404040) (i64.const 4242424242424242))))"#), 1);
    assert_eq!(run_u32(r#"(module (func (export "test") (result i32) (i64.le_u (i64.const 4242424242424242) (i64.const 4040404040404040))))"#), 0);
    assert_eq!(run_u32(r#"(module (func (export "test") (result i32) (i64.le_u (i64.const 4242424242424242) (i64.const -4242424242424242))))"#), 1);
    assert_eq!(run_u32(r#"(module (func (export "test") (result i32) (i64.le_u (i64.const 4242424242424242) (i64.const 4242424242424242))))"#), 1);
    assert_eq!(run_u32(r#"(module (func (export "test") (result i32) (i64.le_s (i64.const -4242424242424242) (i64.const 4242424242424242))))"#), 1);
    assert_eq!(run_u32(r#"(module (func (export "test") (result i32) (i64.le_s (i64.const 4040404040404040) (i64.const 4242424242424242))))"#), 1);
    assert_eq!(run_u32(r#"(module (func (export "test") (result i32) (i64.le_s (i64.const 4242424242424242) (i64.const -4242424242424242))))"#), 0);
    assert_eq!(run_u32(r#"(module (func (export "test") (result i32) (i64.le_s (i64.const 4242424242424242) (i64.const 4040404040404040))))"#), 0);
    assert_eq!(run_u32(r#"(module (func (export "test") (result i32) (i64.le_s (i64.const 4242424242424242) (i64.const 4242424242424242))))"#), 1);

    assert_eq!(run_u32(r#"(module (func (export "test") (result i32) (i64.ge_u (i64.const 4040404040404040) (i64.const 4242424242424242))))"#), 0);
    assert_eq!(run_u32(r#"(module (func (export "test") (result i32) (i64.ge_u (i64.const 4242424242424242) (i64.const 4040404040404040))))"#), 1);
    assert_eq!(run_u32(r#"(module (func (export "test") (result i32) (i64.ge_u (i64.const 4242424242424242) (i64.const -4242424242424242))))"#), 0);
    assert_eq!(run_u32(r#"(module (func (export "test") (result i32) (i64.ge_u (i64.const 4242424242424242) (i64.const 4242424242424242))))"#), 1);
    assert_eq!(run_u32(r#"(module (func (export "test") (result i32) (i64.ge_s (i64.const -4242424242424242) (i64.const 4242424242424242))))"#), 0);
    assert_eq!(run_u32(r#"(module (func (export "test") (result i32) (i64.ge_s (i64.const 4040404040404040) (i64.const 4242424242424242))))"#), 0);
    assert_eq!(run_u32(r#"(module (func (export "test") (result i32) (i64.ge_s (i64.const 4242424242424242) (i64.const -4242424242424242))))"#), 1);
    assert_eq!(run_u32(r#"(module (func (export "test") (result i32) (i64.ge_s (i64.const 4242424242424242) (i64.const 4040404040404040))))"#), 1);
    assert_eq!(run_u32(r#"(module (func (export "test") (result i32) (i64.ge_s (i64.const 4242424242424242) (i64.const 4242424242424242))))"#), 1);

    assert_eq!(run_u32(r#"(module (func (export "test") (result i32) (i64.eqz (i64.sub (i64.const 4242424242424242) (i64.const 4242424242424242)))))"#), 1);
    assert_eq!(run_u32(r#"(module (func (export "test") (result i32) (i64.eqz (i64.sub (i64.const 4040404040404040) (i64.const 4242424242424242)))))"#), 0);
    assert_eq!(run_u32(r#"(module (func (export "test") (result i32) (i64.eqz (i64.sub (i64.const 4242424242424242) (i64.const 1576323506)))))"#), 0);
}
