//! Integer constants and the bitwise operations, 32- and 64-bit.

use pvf::eval::evaluate_export;
use pvf::intel_x64::IntelX64Compiler;
use pvf::raw::RawPvf;

fn run(code: &str, args: Vec<u64>) -> u64 {
    let bytes = wat::parse_str(code).unwrap();
    let prepared = RawPvf::from_bytes(&bytes)
        .translate()
        .unwrap()
        .compile(&mut IntelX64Compiler::new())
        .unwrap();
    assert!(prepared.code_len() > 0);
    let ir = RawPvf::from_bytes(&bytes).translate().unwrap();
    evaluate_export(&ir, &"test".to_owned(), &args, 10_000_000).unwrap()
}

fn run_i32(code: &str) -> i32 {
    run(code, vec![]) as u32 as i32
}

fn run_u32(code: &str) -> u32 {
    run(code, vec![]) as u32
}

fn run_i64(code: &str) -> i64 {
    run(code, vec![]) as i64
}

fn run_u64(code: &str) -> u64 {
    run(code, vec![])
}

#[test]
fn i32_const() {
    assert_eq!(run_i32(r#"(module (func (export "test") (result i32) i32.const 42))"#), 42);
    assert_eq!(run_i32(r#"(module (func (export "test") (result i32) i32.const -42))"#), -42);
    assert_eq!(
        run_u32(r#"(module (func (export "test") (result i32) i32.const -42))"#),
        4294967254
    );
    assert_eq!(
        run_i32(r#"(module (func (export "test") (result i32) (i32.const 42) (i32.const 41) (drop)))"#),
        42
    );
}

#[test]
fn i64_const() {
    assert_eq!(run_i64(r#"(module (func (export "test") (result i64) i64.const 42))"#), 42);
    assert_eq!(run_i64(r#"(module (func (export "test") (result i64) i64.const -42))"#), -42);
    assert_eq!(
        run_u64(r#"(module (func (export "test") (result i64) i64.const -42))"#),
        18446744073709551574
    );
    assert_eq!(
        run_i64(r#"(module (func (export "test") (result i64) (i64.const 42) (i64.const 41) (drop)))"#),
        42
    );
}

#[test]
fn i32_bitwise() {
    assert_eq!(run_u32(r#"(module (func (export "test") (result i32) (i32.and (i32.const 298) (i32.const 63))))"#), 42);
    assert_eq!(run_u32(r#"(module (func (export "test") (result i32) (i32.or (i32.const 40) (i32.const 2))))"#), 42);
    assert_eq!(run_u32(r#"(module (func (export "test") (result i32) (i32.xor (i32.const 127) (i32.const 85))))"#), 42);

    assert_eq!(run_u32(r#"(module (func (export "test") (result i32) (i32.shl (i32.const 42) (i32.const 2))))"#), 168);
    assert_eq!(run_u32(r#"(module (func (export "test") (result i32) (i32.shl (i32.const 42) (i32.const 31))))"#), 0);
    assert_eq!(run_u32(r#"(module (func (export "test") (result i32) (i32.shl (i32.const 42) (i32.const 34))))"#), 168);

    assert_eq!(run_u32(r#"(module (func (export "test") (result i32) (i32.shr_u (i32.const 42) (i32.const 1))))"#), 21);
    assert_eq!(run_u32(r#"(module (func (export "test") (result i32) (i32.shr_u (i32.const -1) (i32.const 7))))"#), 33554431);
    assert_eq!(run_u32(r#"(module (func (export "test") (result i32) (i32.shr_u (i32.const -1) (i32.const 31))))"#), 1);
    assert_eq!(run_u32(r#"(module (func (export "test") (result i32) (i32.shr_u (i32.const -1) (i32.const 39))))"#), 33554431);

    assert_eq!(run_i32(r#"(module (func (export "test") (result i32) (i32.shr_s (i32.const  42) (i32.const 1))))"#), 21);
    assert_eq!(run_i32(r#"(module (func (export "test") (result i32) (i32.shr_s (i32.const -42) (i32.const 1))))"#), -21);
    assert_eq!(run_i32(r#"(module (func (export "test") (result i32) (i32.shr_s (i32.const  -1) (i32.const 1))))"#), -1);
    assert_eq!(run_i32(r#"(module (func (export "test") (result i32) (i32.shr_s (i32.const  -1) (i32.const 31))))"#), -1);

    assert_eq!(run_u32(r#"(module (func (export "test") (result i32) (i32.rotl (i32.const 42) (i32.const 2))))"#), 168);
    assert_eq!(run_u32(r#"(module (func (export "test") (result i32) (i32.rotl (i32.const 42) (i32.const 31))))"#), 21);
    assert_eq!(run_u32(r#"(module (func (export "test") (result i32) (i32.rotl (i32.const 42) (i32.const 34))))"#), 168);

    assert_eq!(run_u32(r#"(module (func (export "test") (result i32) (i32.rotr (i32.const 42) (i32.const 1))))"#), 21);
    assert_eq!(run_i32(r#"(module (func (export "test") (result i32) (i32.rotr (i32.const 42) (i32.const 2))))"#), -2147483638);
    assert_eq!(run_u32(r#"(module (func (export "test") (result i32) (i32.rotr (i32.const 42) (i32.const 31))))"#), 84);
    assert_eq!(run_i32(r#"(module (func (export "test") (result i32) (i32.rotr (i32.const 42) (i32.const 34))))"#), -2147483638);

    assert_eq!(run_u32(r#"(module (func (export "test") (result i32) (i32.clz (i32.const 0x00080000))))"#), 12);
    assert_eq!(run_u32(r#"(module (func (export "test") (result i32) (i32.clz (i32.const 0))))"#), 32);
    assert_eq!(run_u32(r#"(module (func (export "test") (result i32) (i32.clz (i32.const 0x80000000))))"#), 0);

    assert_eq!(run_u32(r#"(module (func (export "test") (result i32) (i32.ctz (i32.const 0x00001000))))"#), 12);
    assert_eq!(run_u32(r#"(module (func (export "test") (result i32) (i32.ctz (i32.const 0))))"#), 32);
    assert_eq!(run_u32(r#"(module (func (export "test") (result i32) (i32.ctz (i32.const 1))))"#), 0);

    assert_eq!(run_u32(r#"(module (func (export "test") (result i32) (i32.popcnt (i32.const 0xAAAAAAAA))))"#), 16);
    assert_eq!(run_u32(r#"(module (func (export "test") (result i32) (i32.popcnt (i32.const -1))))"#), 32);
    assert_eq!(run_u32(r#"(module (func (export "test") (result i32) (i32.popcnt (i32.const 0))))"#), 0);
}

#[test]
fn i64_bitwise() {
    assert_eq!(run_u64(r#"(module (func (export "test") (result i64) (i64.and (i64.const 0xF2F2F2F2F2F2F2F2) (i64.const 0x4F4F4F4F4F4F4F4F))))"#), 0x4242424242424242);
    assert_eq!(run_u64(r#"(module (func (export "test") (result i64) (i64.or  (i64.const 0x4040404040404040) (i64.const 0x0202020202020202))))"#), 0x4242424242424242);
    assert_eq!(run_u64(r#"(module (func (export "test") (result i64) (i64.xor (i64.const 0xAAAAAAAAAAAAAAAA) (i64.const 0xE8E8E8E8E8E8E8E8))))"#), 0x4242424242424242);

    assert_eq!(run_u64(r#"(module (func (export "test") (result i64) (i64.shl   (i64.const  42) (i64.const 2))))"#), 168);
    assert_eq!(run_u64(r#"(module (func (export "test") (result i64) (i64.shl   (i64.const  42) (i64.const 63))))"#), 0);
    assert_eq!(run_u64(r#"(module (func (export "test") (result i64) (i64.shl   (i64.const  42) (i64.const 66))))"#), 168);

    assert_eq!(run_u64(r#"(module (func (export "test") (result i64) (i64.shr_u (i64.const  42) (i64.const 1))))"#), 21);
    assert_eq!(run_u64(r#"(module (func (export "test") (result i64) (i64.shr_u (i64.const  -1) (i64.const 7))))"#), 0x1ffffffffffffff);
    assert_eq!(run_u64(r#"(module (func (export "test") (result i64) (i64.shr_u (i64.const  -1) (i64.const 63))))"#), 1);
    assert_eq!(run_u64(r#"(module (func (export "test") (result i64) (i64.shr_u (i64.const  -1) (i64.const 71))))"#), 0x1ffffffffffffff);

    assert_eq!(run_i64(r#"(module (func (export "test") (result i64) (i64.shr_s (i64.const  42) (i64.const 1))))"#), 21);
    assert_eq!(run_i64(r#"(module (func (export "test") (result i64) (i64.shr_s (i64.const -42) (i64.const 1))))"#), -21);
    assert_eq!(run_i64(r#"(module (func (export "test") (result i64) (i64.shr_s (i64.const  -1) (i64.const 1))))"#), -1);
    assert_eq!(run_i64(r#"(module (func (export "test") (result i64) (i64.shr_s (i64.const  -1) (i64.const 31))))"#), -1);

    assert_eq!(run_u64(r#"(module (func (export "test") (result i64) (i64.rotl (i64.const 42) (i64.const 2))))"#), 168);
    assert_eq!(run_u64(r#"(module (func (export "test") (result i64) (i64.rotl (i64.const 42) (i64.const 63))))"#), 21);
    assert_eq!(run_u64(r#"(module (func (export "test") (result i64) (i64.rotl (i64.const 42) (i64.const 66))))"#), 168);

    assert_eq!(run_u64(r#"(module (func (export "test") (result i64) (i64.rotr (i64.const 42) (i64.const 1))))"#), 21);
    assert_eq!(run_u64(r#"(module (func (export "test") (result i64) (i64.rotr (i64.const 42) (i64.const 2))))"#), 0x800000000000000a);
    assert_eq!(run_u64(r#"(module (func (export "test") (result i64) (i64.rotr (i64.const 42) (i64.const 63))))"#), 84);
    assert_eq!(run_u64(r#"(module (func (export "test") (result i64) (i64.rotr (i64.const 42) (i64.const 66))))"#), 0x800000000000000a);

    assert_eq!(run_u64(r#"(module (func (export "test") (result i64) (i64.clz (i64.const 0x0000000000200000))))"#), 42);
    assert_eq!(run_u64(r#"(module (func (export "test") (result i64) (i64.clz (i64.const 0))))"#), 64);
    assert_eq!(run_u64(r#"(module (func (export "test") (result i64) (i64.clz (i64.const 0x8000000000000000))))"#), 0);

    assert_eq!(run_u64(r#"(module (func (export "test") (result i64) (i64.ctz (i64.const 0x0000040000000000))))"#), 42);
    assert_eq!(run_u64(r#"(module (func (export "test") (result i64) (i64.ctz (i64.const 0))))"#), 64);
    assert_eq!(run_u64(r#"(module (func (export "test") (result i64) (i64.ctz (i64.const 1))))"#), 0);

    assert_eq!(run_u64(r#"(module (func (export "test") (result i64) (i64.popcnt (i64.const 0xAAAAAAAAAAAAAAAA))))"#), 32);
    assert_eq!(run_u64(r#"(module (func (export "test") (result i64) (i64.popcnt (i64.const -1))))"#), 64);
    assert_eq!(run_u64(r#"(module (func (export "test") (result i64) (i64.popcnt (i64.const 0))))"#), 0);
}
