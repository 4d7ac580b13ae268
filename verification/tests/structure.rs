//! Structured control flow, locals, globals, calls, memory, conversions.

use pvf::eval::evaluate_export;
use pvf::intel_x64::IntelX64Compiler;
use pvf::raw::RawPvf;

fn run(code: &str, args: Vec<u64>) -> u64 {
    let bytes = wat::parse_str(code).unwrap();
    let prepared = RawPvf::from_bytes(&bytes)
        .translate()
        .unwrap()
        .compile(&mut IntelX64Compiler::new())
        .unwrap();
    assert!(prepared.code_len() > 0);
    let ir = RawPvf::from_bytes(&bytes).translate().unwrap();
    evaluate_export(&ir, &"test".to_owned(), &args, 10_000_000).unwrap()
}

fn run_i32(code: &str, args: Vec<u64>) -> i32 {
    run(code, args) as u32 as i32
}

fn run_u32(code: &str, args: Vec<u64>) -> u32 {
    run(code, args) as u32
}

fn run_i64(code: &str, args: Vec<u64>) -> i64 {
    run(code, args) as i64
}

#[test]
fn block() {
    assert_eq!(
        run_i32(
            r#"
            (module
                (func (export "test") (result i32)
                    (block (result i32)
                        (block (result i32)
                            i32.const 42
                        )
                    )
                )
            )"#,
            vec![],
        ),
        42
    );
    assert_eq!(
        run_i32(
            r#"
            (module
                (func (export "test") (result i32)
                    (block (result i32)
                        (block (result i32)
                            i32.const 40
                            i32.const 41
                            i32.const 42
                            br 1
                        )
                    )
                )
            )"#,
            vec![],
        ),
        42
    );
    assert_eq!(
        run_i32(
            r#"
            (module
                (func (export "test") (param i32) (result i32) (local i32 i32)
                    i32.const 3
                    local.set 2
                    (loop (result i32)
                        (local.set 1 (i32.add (local.get 1) (i32.const 10)))
                        (i32.sub (i32.const 1) (local.get 2))
                        local.tee 2
                        br_if 0
                        local.get 1
                    )
                    local.get 0
                    i32.add
                )
            )"#,
            vec![12],
        ),
        42
    );
}

#[test]
fn locals() {
    assert_eq!(
        run_i32(
            r#"
            (module
                (func (export "test") (result i32) (local i32)
                    (local.tee 0 (i32.const 21))
                    (i32.add (local.get 0))
                )
            )"#,
            vec![],
        ),
        42
    );
}

#[test]
fn globals() {
    assert_eq!(
        run_i32(
            r#"
            (module
                (func (export "test") (result i32)

                    (global.set 1 (i32.const 12))
                    (i32.add (global.get 1) (global.get 0))
                )
                (global i32 (i32.const 30))
                (global i32 (i32.const 0))
            )"#,
            vec![],
        ),
        42
    );
}

#[test]
fn call() {
    assert_eq!(
        run_i32(
            r#"
            (module
                (func $i42 (result i32) i32.const 42)
                (func (export "test") (result i32) call $i42)
            )"#,
            vec![],
        ),
        42
    );
    assert_eq!(
        run_i32(
            r#"
            (module
                (func $add2 (param i32) (result i32) (i32.add (local.get 0) (i32.const 2)))
                (func (export "test") (result i32) (i32.const 40) (call $add2))
            )"#,
            vec![],
        ),
        42
    );
    assert_eq!(
        run_i32(
            r#"
            (module
                (func $param6 (param i32 i32 i32 i32 i32 i32) (result i32)
                    (i32.add (i32.sub (i32.add (i32.sub (i32.add (local.get 0) (local.get 1)) (local.get 2)) (local.get 3)) (local.get 4)) (local.get 5))
                )
                (func (export "test") (result i32)
                    (i32.add (call $param6 (i32.const 1) (i32.const 10) (i32.const 15) (i32.const 22) (i32.const 13) (i32.const 32)) (i32.const 5))
                )
            )"#,
            vec![],
        ),
        42
    );
    assert_eq!(
        run_i32(
            r#"
            (module
                (func $param9 (param i32 i32 i32 i32 i32 i32 i32 i32 i32) (result i32)
                    (i32.sub (i32.add (i32.sub (i32.add (i32.sub (i32.add (i32.sub (i32.add (local.get 0) (local.get 1)) (local.get 2)) (local.get 3)) (local.get 4)) (local.get 5)) (local.get 6)) (local.get 7)) (local.get 8))
                )
                (func (export "test") (result i32)
                    (i32.add (call $param9 (i32.const 1) (i32.const 10) (i32.const 15) (i32.const 22) (i32.const 13) (i32.const 32) (i32.const 54) (i32.const 100) (i32.const 48)) (i32.const 7))
                )
            )"#,
            vec![],
        ),
        42
    );
}

#[test]
fn memory() {
    assert_eq!(
        run_i32(
            r#"
            (module
                (func (export "test") (result i32)
                    i32.const 352
                    i32.const 589965607
                    i32.store offset=16
                    i32.const 354
                    i32.load8_u offset=16
                )
                (memory 1)
                (export "memory" (memory 0))
            )"#,
            vec![],
        ),
        42
    );
    assert_eq!(
        run_i32(
            r#"
            (module
                (func (export "test") (result i32)
                    (i64.store offset=32 (i32.const 444) (i64.const 0x44332211DDCCBBAA))
                    (i32.load8_u offset=32 (i32.const 444))
                    (i32.load8_u offset=32 (i32.const 445))
                    (i32.load16_u offset=32 (i32.const 446))
                    (i32.load offset=32 (i32.const 448))
                    (i32.sub (i32.add (i32.add (i32.add))) (i32.const 0x44340118))
                )
                (memory 1)
                (export "memory" (memory 0))
            )"#,
            vec![],
        ),
        42
    );
    assert_eq!(
        run_i32(
            r#"
            (module
                (func (export "test") (result i32)
                    (i64.store offset=32 (i32.const 444) (i64.const 214))
                    (i32.load8_s offset=32 (i32.const 444))
                    (i32.add (i32.const 84))
                )
                (memory 1)
                (export "memory" (memory 0))
            )"#,
            vec![],
        ),
        42
    );
}

#[test]
fn select() {
    assert_eq!(
        run_u32(
            r#"(module (func (export "test") (result i32) (select (i32.const 10) (i32.const 42) (i32.const 0))))"#,
            vec![],
        ),
        42
    );
    assert_eq!(
        run_u32(
            r#"(module (func (export "test") (result i32) (select (i32.const 42) (i32.const 10) (i32.const 1))))"#,
            vec![],
        ),
        42
    );
}

#[test]
fn i32_i64_conv() {
    assert_eq!(
        run_u32(
            r#"(module (func (export "test") (result i32) (i32.wrap_i64 (i64.const 0x44332211DDCCBBAA))))"#,
            vec![],
        ),
        0xDDCCBBAA
    );
    assert_eq!(
        run_i64(
            r#"(module (func (export "test") (result i64) (i64.extend_i32_u (i32.const 42))))"#,
            vec![],
        ),
        42
    );
    assert_eq!(
        run_i64(
            r#"(module (func (export "test") (result i64) (i64.extend_i32_u (i32.const -42))))"#,
            vec![],
        ),
        0xFFFFFFD6
    );
    assert_eq!(
        run_i64(
            r#"(module (func (export "test") (result i64) (i64.extend_i32_s (i32.const 42))))"#,
            vec![],
        ),
        42
    );
    assert_eq!(
        run_i64(
            r#"(module (func (export "test") (result i64) (i64.extend_i32_s (i32.const -42))))"#,
            vec![],
        ),
        -42
    );
}

#[test]
fn call_indirect() {
    assert_eq!(
        run_i32(
            r#"
            (module
                (func $fn1 (result i32)
                    i32.const 41
                )
                (func $fn2 (result i32)
                    i32.const 42
                )
                (func $fn3 (result i32)
                    i32.const 43
                )
                (func (export "test") (result i32)
                    i32.const 2
                    call_indirect (type 0)
                )
                (table 4 4 funcref)
                (elem (i32.const 1) $fn1 $fn2 $fn3)
            )"#,
            vec![],
        ),
        42
    );
}
