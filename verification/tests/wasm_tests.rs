//! Code generator scenarios: emitted modules run on a WebAssembly engine
//! and must agree with the interpreter's results, in both the binary and
//! the text form; emission is byte-for-byte reproducible.

use atlas::ast::{Ast, FuncDef, Param};
use atlas::interp::F64Ops;
use atlas::module::Module;
use atlas::value::{TypeDef, Value};

struct HostFloat;

impl F64Ops for HostFloat {
    fn f64_add(&self, a: u64, b: u64) -> u64 {
        (f64::from_bits(a) + f64::from_bits(b)).to_bits()
    }
    fn f64_sub(&self, a: u64, b: u64) -> u64 {
        (f64::from_bits(a) - f64::from_bits(b)).to_bits()
    }
    fn f64_mul(&self, a: u64, b: u64) -> u64 {
        (f64::from_bits(a) * f64::from_bits(b)).to_bits()
    }
    fn f64_div(&self, a: u64, b: u64) -> u64 {
        (f64::from_bits(a) / f64::from_bits(b)).to_bits()
    }
    fn f64_eq(&self, a: u64, b: u64) -> bool {
        f64::from_bits(a) == f64::from_bits(b)
    }
    fn f64_ne(&self, a: u64, b: u64) -> bool {
        f64::from_bits(a) != f64::from_bits(b)
    }
    fn f64_lt(&self, a: u64, b: u64) -> bool {
        f64::from_bits(a) < f64::from_bits(b)
    }
    fn f64_le(&self, a: u64, b: u64) -> bool {
        f64::from_bits(a) <= f64::from_bits(b)
    }
    fn f64_gt(&self, a: u64, b: u64) -> bool {
        f64::from_bits(a) > f64::from_bits(b)
    }
    fn f64_ge(&self, a: u64, b: u64) -> bool {
        f64::from_bits(a) >= f64::from_bits(b)
    }
}

fn b(a: Ast) -> Box<Ast> {
    Box::new(a)
}

fn num(v: i32) -> Ast {
    Ast::I32(v)
}

fn flt(v: f64) -> Ast {
    Ast::F64(v.to_bits())
}

fn var(name: &str) -> Ast {
    Ast::Ident(name.to_string())
}

fn decl(name: &str, e: Ast) -> Ast {
    Ast::Declair(name.to_string(), b(e))
}

fn assign(name: &str, e: Ast) -> Ast {
    Ast::Assign(name.to_string(), b(e))
}

fn add(x: Ast, y: Ast) -> Ast {
    Ast::Add(b(x), b(y))
}

fn ret(e: Ast) -> Ast {
    Ast::Return(b(e))
}

fn block(stmts: Vec<Ast>) -> Ast {
    Ast::Block(stmts)
}

fn func(name: &str, params: Vec<(&str, TypeDef)>, return_type: TypeDef, body: Vec<Ast>) -> Ast {
    Ast::FuncDef(FuncDef {
        name: name.to_string(),
        params: params
            .into_iter()
            .map(|(n, t)| Param { name: n.to_string(), param_type: t })
            .collect(),
        return_type,
        body: b(block(body)),
    })
}

fn main_i32(body: Vec<Ast>) -> Vec<Ast> {
    vec![func("main", vec![], TypeDef::I32, body)]
}

fn engine_run_i32(bytes: &[u8]) -> i32 {
    let engine = wasmtime::Engine::default();
    let module = wasmtime::Module::new(&engine, bytes).expect("the module should validate");
    let mut store = wasmtime::Store::new(&engine, ());
    let instance =
        wasmtime::Instance::new(&mut store, &module, &[]).expect("instantiation should succeed");
    let main = instance
        .get_typed_func::<(), i32>(&mut store, "main")
        .expect("the export should be there");
    main.call(&mut store, ()).expect("the call should succeed")
}

fn engine_run_f64(bytes: &[u8]) -> f64 {
    let engine = wasmtime::Engine::default();
    let module = wasmtime::Module::new(&engine, bytes).expect("the module should validate");
    let mut store = wasmtime::Store::new(&engine, ());
    let instance =
        wasmtime::Instance::new(&mut store, &module, &[]).expect("instantiation should succeed");
    let main = instance
        .get_typed_func::<(), f64>(&mut store, "main")
        .expect("the export should be there");
    main.call(&mut store, ()).expect("the call should succeed")
}

/// Interpreter, binary module and text module must all produce `expected`.
fn agree_i32(defs: &Vec<Ast>, expected: i32) {
    let module = Module::from_ast(defs).expect("the module should build");
    let interp = module.exec(&HostFloat, "main", vec![]).expect("the interpreter should succeed");
    assert_eq!(interp, Value::i32(expected));
    assert_eq!(engine_run_i32(&module.to_wasm()), expected);
    assert_eq!(engine_run_i32(&module.to_wat()), expected);
}

fn agree_f64(defs: &Vec<Ast>, expected: f64) {
    let module = Module::from_ast(defs).expect("the module should build");
    let interp = module.exec(&HostFloat, "main", vec![]).expect("the interpreter should succeed");
    assert_eq!(interp, Value::f64_from_bits(expected.to_bits()));
    assert_eq!(engine_run_f64(&module.to_wasm()).to_bits(), expected.to_bits());
    assert_eq!(engine_run_f64(&module.to_wat()).to_bits(), expected.to_bits());
}

#[test]
fn wasm_let_and_add() {
    agree_i32(&main_i32(vec![decl("x", num(5)), ret(add(num(40), var("x")))]), 45);
}

#[test]
fn wasm_counting_loop() {
    agree_i32(
        &main_i32(vec![
            decl("x", num(1)),
            Ast::While(
                b(Ast::Lt(b(var("x")), b(num(10)))),
                b(block(vec![assign("x", add(var("x"), num(1)))])),
            ),
            ret(var("x")),
        ]),
        10,
    );
}

#[test]
fn wasm_branch() {
    agree_i32(
        &main_i32(vec![Ast::If(
            b(Ast::Bool(true)),
            b(block(vec![ret(num(1))])),
            b(block(vec![ret(num(2))])),
        )]),
        1,
    );
}

#[test]
fn wasm_fib() {
    let fib_body = ret(Ast::If(
        b(Ast::Eq(b(var("num")), b(num(1)))),
        b(num(1)),
        b(Ast::If(
            b(Ast::Eq(b(var("num")), b(num(0)))),
            b(num(0)),
            b(add(
                Ast::FuncCall(b(var("fib")), vec![Ast::Sub(b(var("num")), b(num(1)))]),
                Ast::FuncCall(b(var("fib")), vec![Ast::Sub(b(var("num")), b(num(2)))]),
            )),
        )),
    ));
    agree_i32(
        &vec![
            func("fib", vec![("num", TypeDef::I32)], TypeDef::I32, vec![fib_body]),
            func(
                "main",
                vec![],
                TypeDef::I32,
                vec![ret(Ast::FuncCall(b(var("fib")), vec![num(7)]))],
            ),
        ],
        13,
    );
}

#[test]
fn wasm_shadowing() {
    agree_i32(
        &main_i32(vec![
            decl("x", num(1)),
            block(vec![decl("x", num(5)), assign("x", add(var("x"), num(1)))]),
            ret(var("x")),
        ]),
        1,
    );
}

#[test]
fn wasm_negative_float() {
    agree_f64(
        &vec![func("main", vec![], TypeDef::F64, vec![ret(Ast::Negative(b(flt(42.2))))])],
        -42.2,
    );
}

#[test]
fn wasm_float_arithmetic() {
    agree_f64(
        &vec![func(
            "main",
            vec![],
            TypeDef::F64,
            vec![ret(Ast::Add(b(flt(38.2)), b(flt(3.8))))],
        )],
        38.2 + 3.8,
    );
}

#[test]
fn wasm_nested_control_flow() {
    agree_i32(
        &main_i32(vec![
            decl("x", num(0)),
            Ast::While(
                b(Ast::Lt(b(var("x")), b(num(3)))),
                b(block(vec![Ast::If(
                    b(Ast::Eq(b(var("x")), b(num(1)))),
                    b(block(vec![assign("x", add(var("x"), num(2)))])),
                    b(block(vec![assign("x", add(var("x"), num(1)))])),
                )])),
            ),
            ret(var("x")),
        ]),
        3,
    );
}

#[test]
fn wasm_emits_f64_neg() {
    // Float negation is emitted as the dedicated negate instruction, both
    // as the binary opcode and as the text mnemonic.
    let defs = vec![func("main", vec![], TypeDef::F64, vec![ret(Ast::Negative(b(flt(42.2))))])];
    let module = Module::from_ast(&defs).unwrap();
    let binary = module.to_wasm();
    assert!(binary.contains(&0x9Au8));
    let text = module.to_wat();
    let text_str = String::from_utf8(text).unwrap();
    assert!(text_str.contains("f64.neg"));
}

#[test]
fn wasm_emission_is_reproducible() {
    // Emitting twice from one module gives identical bytes, and two builds
    // from the same tree give identical bytes.
    let make = || {
        main_i32(vec![
            decl("x", num(1)),
            Ast::While(
                b(Ast::Lt(b(var("x")), b(num(10)))),
                b(block(vec![assign("x", add(var("x"), num(1)))])),
            ),
            ret(var("x")),
        ])
    };
    let module = Module::from_ast(&make()).unwrap();
    assert_eq!(module.to_wasm(), module.to_wasm());
    assert_eq!(module.to_wat(), module.to_wat());
    let module2 = Module::from_ast(&make()).unwrap();
    assert_eq!(module.to_wasm(), module2.to_wasm());
    assert_eq!(module.to_wat(), module2.to_wat());
}

#[test]
fn wasm_empty_body_traps() {
    // The empty function body emits a lone `unreachable`, so the engine
    // traps deterministically, as the interpreter does.
    let module = Module::from_ast(&main_i32(vec![])).unwrap();
    assert!(module.exec(&HostFloat, "main", vec![]).is_err());
    let bytes = module.to_wasm();
    let engine = wasmtime::Engine::default();
    let wmodule = wasmtime::Module::new(&engine, &bytes).expect("the module should validate");
    let mut store = wasmtime::Store::new(&engine, ());
    let instance = wasmtime::Instance::new(&mut store, &wmodule, &[]).unwrap();
    let main = instance.get_typed_func::<(), i32>(&mut store, "main").unwrap();
    assert!(main.call(&mut store, ()).is_err());
}

#[test]
fn wasm_exports_use_source_names() {
    let defs = vec![
        func("forty", vec![], TypeDef::I32, vec![ret(num(40))]),
        func("main", vec![], TypeDef::I32, vec![ret(num(2))]),
    ];
    let module = Module::from_ast(&defs).unwrap();
    let bytes = module.to_wasm();
    let engine = wasmtime::Engine::default();
    let wmodule = wasmtime::Module::new(&engine, &bytes).unwrap();
    let mut store = wasmtime::Store::new(&engine, ());
    let instance = wasmtime::Instance::new(&mut store, &wmodule, &[]).unwrap();
    let forty = instance.get_typed_func::<(), i32>(&mut store, "forty").unwrap();
    assert_eq!(forty.call(&mut store, ()).unwrap(), 40);
}

#[test]
fn wasm_loop_inside_loop() {
    // The inner loop must be emitted as its own construct: the jump that
    // enters it is not a back edge of the outer loop.
    agree_i32(
        &main_i32(vec![
            decl("x", num(0)),
            Ast::While(
                b(Ast::Lt(b(var("x")), b(num(3)))),
                b(block(vec![
                    Ast::While(b(Ast::Bool(false)), b(block(vec![]))),
                    assign("x", add(var("x"), num(1))),
                ])),
            ),
            ret(var("x")),
        ]),
        3,
    );
}

#[test]
fn wasm_nested_counting_loops() {
    // Both loop bodies reassign outer names, so both condition blocks
    // carry phi parameters, and the back edges must each restart their
    // own loop.
    agree_i32(
        &main_i32(vec![
            decl("i", num(0)),
            decl("s", num(0)),
            Ast::While(
                b(Ast::Lt(b(var("i")), b(num(3)))),
                b(block(vec![
                    decl("j", num(0)),
                    Ast::While(
                        b(Ast::Lt(b(var("j")), b(num(2)))),
                        b(block(vec![
                            assign("s", add(var("s"), num(1))),
                            assign("j", add(var("j"), num(1))),
                        ])),
                    ),
                    assign("i", add(var("i"), num(1))),
                ])),
            ),
            ret(var("s")),
        ]),
        6,
    );
}

#[test]
fn wasm_call_returning_f64() {
    // A call's result variable carries the callee's declared return type,
    // so a float-returning callee flows through arithmetic and emission.
    agree_f64(
        &vec![
            func(
                "double",
                vec![("x", TypeDef::F64)],
                TypeDef::F64,
                vec![ret(Ast::Add(b(var("x")), b(var("x"))))],
            ),
            func(
                "main",
                vec![],
                TypeDef::F64,
                vec![ret(Ast::FuncCall(b(var("double")), vec![flt(21.1)]))],
            ),
        ],
        21.1 + 21.1,
    );
}
