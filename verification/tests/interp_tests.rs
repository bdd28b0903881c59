//! Interpreter scenarios: whole programs built as syntax trees, compiled
//! and executed, with exact expected values.

use atlas::ast::{Ast, FuncDef, Param};
use atlas::interp::Trap;
use atlas::ir::BuildError;
use atlas::interp::F64Ops;
use atlas::module::Module;
use atlas::value::{TypeDef, Value};

struct HostFloat;

impl F64Ops for HostFloat {
    fn f64_add(&self, a: u64, b: u64) -> u64 {
        (f64::from_bits(a) + f64::from_bits(b)).to_bits()
    }
    fn f64_sub(&self, a: u64, b: u64) -> u64 {
        (f64::from_bits(a) - f64::from_bits(b)).to_bits()
    }
    fn f64_mul(&self, a: u64, b: u64) -> u64 {
        (f64::from_bits(a) * f64::from_bits(b)).to_bits()
    }
    fn f64_div(&self, a: u64, b: u64) -> u64 {
        (f64::from_bits(a) / f64::from_bits(b)).to_bits()
    }
    fn f64_eq(&self, a: u64, b: u64) -> bool {
        f64::from_bits(a) == f64::from_bits(b)
    }
    fn f64_ne(&self, a: u64, b: u64) -> bool {
        f64::from_bits(a) != f64::from_bits(b)
    }
    fn f64_lt(&self, a: u64, b: u64) -> bool {
        f64::from_bits(a) < f64::from_bits(b)
    }
    fn f64_le(&self, a: u64, b: u64) -> bool {
        f64::from_bits(a) <= f64::from_bits(b)
    }
    fn f64_gt(&self, a: u64, b: u64) -> bool {
        f64::from_bits(a) > f64::from_bits(b)
    }
    fn f64_ge(&self, a: u64, b: u64) -> bool {
        f64::from_bits(a) >= f64::from_bits(b)
    }
}

fn b(a: Ast) -> Box<Ast> {
    Box::new(a)
}

fn num(v: i32) -> Ast {
    Ast::I32(v)
}

fn flt(v: f64) -> Ast {
    Ast::F64(v.to_bits())
}

fn var(name: &str) -> Ast {
    Ast::Ident(name.to_string())
}

fn decl(name: &str, e: Ast) -> Ast {
    Ast::Declair(name.to_string(), b(e))
}

fn assign(name: &str, e: Ast) -> Ast {
    Ast::Assign(name.to_string(), b(e))
}

fn add(x: Ast, y: Ast) -> Ast {
    Ast::Add(b(x), b(y))
}

fn ret(e: Ast) -> Ast {
    Ast::Return(b(e))
}

fn block(stmts: Vec<Ast>) -> Ast {
    Ast::Block(stmts)
}

fn func(name: &str, params: Vec<(&str, TypeDef)>, return_type: TypeDef, body: Vec<Ast>) -> Ast {
    Ast::FuncDef(FuncDef {
        name: name.to_string(),
        params: params
            .into_iter()
            .map(|(n, t)| Param { name: n.to_string(), param_type: t })
            .collect(),
        return_type,
        body: b(block(body)),
    })
}

fn main_i32(body: Vec<Ast>) -> Vec<Ast> {
    vec![func("main", vec![], TypeDef::I32, body)]
}

fn run(defs: &Vec<Ast>) -> Value {
    let module = Module::from_ast(defs).expect("the module should build");
    module.exec(&HostFloat, "main", vec![]).expect("execution should succeed")
}

fn eval_i32(e: Ast) -> Value {
    run(&main_i32(vec![ret(e)]))
}

fn eval_f64(e: Ast) -> Value {
    run(&vec![func("main", vec![], TypeDef::F64, vec![ret(e)])])
}

fn eval_bool(e: Ast) -> Value {
    run(&vec![func("main", vec![], TypeDef::Bool, vec![ret(e)])])
}

#[test]
fn test_variables() {
    assert_eq!(run(&main_i32(vec![decl("x", num(5)), ret(add(num(40), var("x")))])), Value::i32(45));
    assert_eq!(
        run(&main_i32(vec![
            decl("x", num(5)),
            decl("x", add(var("x"), num(10))),
            ret(var("x")),
        ])),
        Value::i32(15)
    );
}

#[test]
fn test_redefine_variable() {
    assert_eq!(
        run(&main_i32(vec![decl("x", num(1)), assign("x", add(var("x"), num(1))), ret(var("x"))])),
        Value::i32(2)
    );
    assert_eq!(
        run(&main_i32(vec![
            decl("x", num(1)),
            block(vec![assign("x", add(var("x"), num(1)))]),
            ret(var("x")),
        ])),
        Value::i32(2)
    );
    assert_eq!(
        run(&main_i32(vec![
            decl("x", num(1)),
            block(vec![decl("x", num(5)), assign("x", add(var("x"), num(1)))]),
            ret(var("x")),
        ])),
        Value::i32(1)
    );
}

#[test]
fn test_loop() {
    assert_eq!(
        run(&main_i32(vec![
            decl("x", num(1)),
            Ast::While(
                b(Ast::Lt(b(var("x")), b(num(10)))),
                b(block(vec![assign("x", add(var("x"), num(1)))])),
            ),
            ret(var("x")),
        ])),
        Value::i32(10)
    );
}

#[test]
fn test_branch_flow() {
    assert_eq!(
        run(&main_i32(vec![Ast::If(
            b(Ast::Bool(true)),
            b(block(vec![ret(num(1))])),
            b(block(vec![ret(num(2))])),
        )])),
        Value::i32(1)
    );
    assert_eq!(
        run(&main_i32(vec![
            Ast::If(b(Ast::Bool(false)), b(block(vec![ret(num(1))])), b(block(vec![]))),
            ret(num(2)),
        ])),
        Value::i32(2)
    );
    assert_eq!(
        run(&main_i32(vec![decl("x", num(1)), block(vec![decl("x", num(2))]), ret(var("x"))])),
        Value::i32(1)
    );
    assert_eq!(
        run(&vec![
            func("bla", vec![], TypeDef::I32, vec![decl("x", num(2)), ret(num(0))]),
            func(
                "main",
                vec![],
                TypeDef::I32,
                vec![
                    decl("x", num(1)),
                    Ast::FuncCall(b(var("bla")), vec![]),
                    ret(var("x")),
                ],
            ),
        ]),
        Value::i32(1)
    );
}

#[test]
fn test_func_def() {
    assert_eq!(run(&main_i32(vec![ret(add(num(40), num(2)))])), Value::i32(42));
    assert_eq!(
        run(&vec![
            func("forty", vec![], TypeDef::I32, vec![ret(Ast::Mul(b(num(20)), b(num(2))))]),
            func(
                "main",
                vec![],
                TypeDef::I32,
                vec![ret(add(Ast::FuncCall(b(var("forty")), vec![]), num(200)))],
            ),
        ]),
        Value::i32(240)
    );
    assert_eq!(
        run(&vec![
            func(
                "add",
                vec![("a", TypeDef::I32), ("b", TypeDef::I32)],
                TypeDef::I32,
                vec![ret(add(var("a"), var("b")))],
            ),
            func(
                "main",
                vec![],
                TypeDef::I32,
                vec![ret(Ast::FuncCall(b(var("add")), vec![num(1), num(2)]))],
            ),
        ]),
        Value::i32(3)
    );
    // fib(n) = if (n == 1) 1 else if (n == 0) 0 else fib(n - 1) + fib(n - 2)
    let fib_body = ret(Ast::If(
        b(Ast::Eq(b(var("num")), b(num(1)))),
        b(num(1)),
        b(Ast::If(
            b(Ast::Eq(b(var("num")), b(num(0)))),
            b(num(0)),
            b(add(
                Ast::FuncCall(b(var("fib")), vec![Ast::Sub(b(var("num")), b(num(1)))]),
                Ast::FuncCall(b(var("fib")), vec![Ast::Sub(b(var("num")), b(num(2)))]),
            )),
        )),
    ));
    assert_eq!(
        run(&vec![
            func("fib", vec![("num", TypeDef::I32)], TypeDef::I32, vec![fib_body]),
            func(
                "main",
                vec![],
                TypeDef::I32,
                vec![ret(Ast::FuncCall(b(var("fib")), vec![num(7)]))],
            ),
        ]),
        Value::i32(13)
    );
}

#[test]
fn test_if() {
    assert_eq!(eval_i32(Ast::If(b(Ast::Bool(true)), b(num(1)), b(num(2)))), Value::i32(1));
    assert_eq!(
        eval_i32(add(num(1), Ast::If(b(Ast::Bool(true)), b(num(10)), b(num(20))))),
        Value::i32(11)
    );
    assert_eq!(
        eval_i32(Ast::If(b(Ast::Bool(true)), b(num(100)), b(add(num(200), num(1))))),
        Value::i32(100)
    );
    assert_eq!(eval_i32(Ast::If(b(Ast::Bool(false)), b(num(1000)), b(num(2000)))), Value::i32(2000));
    assert_eq!(
        eval_i32(Ast::If(
            b(Ast::Bool(false)),
            b(num(1)),
            b(Ast::If(b(Ast::Bool(false)), b(num(2)), b(num(3)))),
        )),
        Value::i32(3)
    );
}

#[test]
fn test_bool() {
    assert_eq!(eval_bool(Ast::Bool(true)), Value::bool(true));
    assert_eq!(eval_bool(Ast::Bool(false)), Value::bool(false));
    assert_eq!(eval_bool(Ast::Eq(b(num(12)), b(num(12)))), Value::bool(true));
    assert_eq!(
        eval_bool(Ast::Eq(b(Ast::Eq(b(num(12)), b(num(12)))), b(Ast::Bool(true)))),
        Value::bool(true)
    );
    assert_eq!(
        eval_bool(Ast::Eq(b(add(num(8), num(4))), b(add(num(10), num(2))))),
        Value::bool(true)
    );
}

#[test]
fn test_num() {
    assert_eq!(eval_i32(num(0)), Value::i32(0));
    assert_eq!(eval_i32(num(1)), Value::i32(1));
    assert_eq!(eval_i32(num(42)), Value::i32(42));
    assert_eq!(eval_f64(flt(42.0)), Value::f64_from_bits(42.0f64.to_bits()));
    assert_eq!(eval_f64(flt(42.2)), Value::f64_from_bits(42.2f64.to_bits()));
}

#[test]
fn test_num_negative() {
    assert_eq!(eval_i32(Ast::Negative(b(num(42)))), Value::i32(-42));
    assert_eq!(eval_f64(Ast::Negative(b(flt(42.2)))), Value::f64_from_bits((-42.2f64).to_bits()));
}

#[test]
fn test_op() {
    assert_eq!(eval_i32(add(num(1), num(1))), Value::i32(2));
    assert_eq!(eval_i32(add(num(40), num(2))), Value::i32(42));
    assert_eq!(
        eval_f64(Ast::Add(b(flt(38.2)), b(flt(3.8)))),
        Value::f64_from_bits((38.2f64 + 3.8f64).to_bits())
    );
    assert_eq!(eval_i32(Ast::Mul(b(num(40)), b(num(2)))), Value::i32(80));
    assert_eq!(eval_i32(Ast::Div(b(num(40)), b(num(2)))), Value::i32(20));
    assert_eq!(eval_i32(Ast::Sub(b(num(40)), b(num(2)))), Value::i32(38));
    assert_eq!(eval_i32(Ast::Sub(b(num(2)), b(num(40)))), Value::i32(-38));
    assert_eq!(eval_i32(add(num(2), Ast::Negative(b(num(40))))), Value::i32(-38));
    assert_eq!(eval_i32(add(num(80), Ast::Sub(b(num(40)), b(num(78))))), Value::i32(42));
    assert_eq!(eval_i32(add(num(2), Ast::Mul(b(num(20)), b(num(2))))), Value::i32(42));
    assert_eq!(eval_i32(add(Ast::Mul(b(num(20)), b(num(2))), num(2))), Value::i32(42));
    assert_eq!(
        eval_i32(add(num(1), add(Ast::Mul(b(num(20)), b(num(2))), num(1)))),
        Value::i32(42)
    );
    assert_eq!(
        eval_i32(add(Ast::Mul(b(num(20)), b(num(2))), Ast::Div(b(num(20)), b(num(2))))),
        Value::i32(50)
    );
}

#[test]
fn scope_shadowing_in_if_does_not_leak() {
    // An `if` with no else: the else arm is an empty block and a
    // declaration inside the then arm goes out of scope at its end.
    assert_eq!(
        run(&main_i32(vec![
            decl("x", num(7)),
            Ast::If(
                b(Ast::Bool(true)),
                b(block(vec![decl("x", num(9))])),
                b(block(vec![])),
            ),
            ret(var("x")),
        ])),
        Value::i32(7)
    );
}

#[test]
fn while_without_outer_writes_has_no_phis() {
    // A loop whose body never reassigns an outer variable gets a condition
    // block with zero parameters.
    let defs = main_i32(vec![
        decl("x", num(1)),
        Ast::While(
            b(Ast::Lt(b(var("x")), b(num(10)))),
            b(block(vec![decl("y", num(2))])),
        ),
        ret(var("x")),
    ]);
    let module = Module::from_ast(&defs).expect("the module should build");
    // Blocks: 0 entry, 1 condition, 2 body, 3 out.
    assert_eq!(module.funcs[0].ir.block_params[1].1, 0);

    // The counting loop from the loop scenario carries exactly one phi.
    let defs2 = main_i32(vec![
        decl("x", num(1)),
        Ast::While(
            b(Ast::Lt(b(var("x")), b(num(10)))),
            b(block(vec![assign("x", add(var("x"), num(1)))])),
        ),
        ret(var("x")),
    ]);
    let module2 = Module::from_ast(&defs2).expect("the module should build");
    assert_eq!(module2.funcs[0].ir.block_params[1].1, 1);
}

#[test]
fn empty_body_traps_deterministically() {
    // An empty function body builds (its entry block is an empty trailing
    // block) and execution is a deterministic trap.
    let defs = main_i32(vec![]);
    let module = Module::from_ast(&defs).expect("the module should build");
    assert!(module.exec(&HostFloat, "main", vec![]).is_err());
}

#[test]
fn builder_rejects_bad_trees() {
    // An undeclared name is refused.
    assert_eq!(
        Module::from_ast(&main_i32(vec![ret(var("nope"))])).err(),
        Some(BuildError::UndeclaredName)
    );
    // Mixed operand types are refused.
    assert_eq!(
        Module::from_ast(&main_i32(vec![ret(add(num(1), Ast::Bool(true)))])).err(),
        Some(BuildError::TypeMismatch)
    );
    // A non-boolean condition is refused.
    assert_eq!(
        Module::from_ast(&main_i32(vec![Ast::If(
            b(num(1)),
            b(block(vec![])),
            b(block(vec![])),
        ), ret(num(0))])).err(),
        Some(BuildError::TypeMismatch)
    );
    // An `if` whose arms disagree about producing a value is refused.
    assert_eq!(
        Module::from_ast(&main_i32(vec![ret(Ast::If(
            b(Ast::Bool(true)),
            b(num(1)),
            b(block(vec![])),
        ))])).err(),
        Some(BuildError::TypeMismatch)
    );
    // A parse error marker is refused.
    assert_eq!(
        Module::from_ast(&main_i32(vec![Ast::Error])).err(),
        Some(BuildError::MalformedAst)
    );
    // Returning the non-value of a loop fails the structural check.
    assert_eq!(
        Module::from_ast(&main_i32(vec![ret(Ast::While(
            b(Ast::Bool(false)),
            b(block(vec![])),
        ))])).err(),
        Some(BuildError::IllFormed)
    );
    // A body without a return and with code in it is refused.
    assert_eq!(
        Module::from_ast(&main_i32(vec![decl("x", num(5))])).err(),
        Some(BuildError::IllFormed)
    );
}

#[test]
fn runtime_traps() {
    // Division by zero traps.
    assert_eq!(
        run_err(&main_i32(vec![ret(Ast::Div(b(num(7)), b(num(0))))])),
        Trap::DivByZero
    );
    // Overflowing division traps.
    assert_eq!(
        run_err(&main_i32(vec![ret(Ast::Div(b(num(i32::MIN)), b(Ast::Negative(b(num(1))))))])),
        Trap::Overflow
    );
    // A missing function is reported.
    let module = Module::from_ast(&main_i32(vec![ret(num(0))])).unwrap();
    assert_eq!(
        module.exec(&HostFloat, "nope", vec![]).err(),
        Some(Trap::NoSuchFunction)
    );
    // A starved step budget is reported.
    let mut memory = atlas::value::Mem::default();
    assert_eq!(
        atlas::interp::exec_ir(&HostFloat, &module.funcs[0], &module.funcs, &mut memory, vec![], 1),
        Err(Trap::OutOfFuel)
    );
}

fn run_err(defs: &Vec<Ast>) -> atlas::interp::Trap {
    let module = Module::from_ast(defs).expect("the module should build");
    module.exec(&HostFloat, "main", vec![]).expect_err("execution should trap")
}

#[test]
fn interpreter_arithmetic_wraps() {
    assert_eq!(eval_i32(add(num(i32::MAX), num(1))), Value::i32(i32::MIN));
    assert_eq!(eval_i32(Ast::Mul(b(num(i32::MAX)), b(num(2)))), Value::i32(-2));
    assert_eq!(eval_i32(Ast::Div(b(Ast::Negative(b(num(7)))), b(num(2)))), Value::i32(-3));
}

#[test]
fn nested_if_inside_while() {
    // x walks 0 -> 1 -> 3, leaving the loop at 3.
    assert_eq!(
        run(&main_i32(vec![
            decl("x", num(0)),
            Ast::While(
                b(Ast::Lt(b(var("x")), b(num(3)))),
                b(block(vec![Ast::If(
                    b(Ast::Eq(b(var("x")), b(num(1)))),
                    b(block(vec![assign("x", add(var("x"), num(2)))])),
                    b(block(vec![assign("x", add(var("x"), num(1)))])),
                )])),
            ),
            ret(var("x")),
        ])),
        Value::i32(3)
    );
}

#[test]
fn dump_format_is_stable() {
    let defs = main_i32(vec![decl("x", num(5)), ret(add(num(40), var("x")))]);
    let module = Module::from_ast(&defs).unwrap();
    let text = String::from_utf8(module.dump_ir()).unwrap();
    let expected = "function main ():\n\
                    '0 ():\n\
                    \x20 v0 = I32(5)\n\
                    \x20 v1 = I32(40)\n\
                    \x20 v2 = (Add v1 v0)\n\
                    \x20 return v2\n";
    assert_eq!(text, expected);
    assert_eq!(module.dump_ir(), module.dump_ir());
}

#[test]
fn test_return_type_mismatch_rejected() {
    // A `return` whose variable does not carry the declared return type
    // fails the structural checks at build time.
    let defs = main_i32(vec![ret(Ast::Bool(true))]);
    assert!(matches!(Module::from_ast(&defs), Err(BuildError::IllFormed)));
}

#[test]
fn test_nested_loops_interp() {
    let defs = main_i32(vec![
        decl("x", num(0)),
        Ast::While(
            b(Ast::Lt(b(var("x")), b(num(3)))),
            b(block(vec![
                Ast::While(b(Ast::Bool(false)), b(block(vec![]))),
                assign("x", add(var("x"), num(1))),
            ])),
        ),
        ret(var("x")),
    ]);
    assert_eq!(run(&defs), Value::i32(3));
}

#[test]
fn test_unit_function_rejected() {
    // `Unit` has no run-time representation and no Wasm value type; a
    // definition declaring it is refused at build time.
    let defs = vec![func("main", vec![], TypeDef::Unit, vec![ret(num(0))])];
    assert!(matches!(Module::from_ast(&defs), Err(BuildError::IllFormed)));
    let defs2 = vec![func(
        "main",
        vec![("u", TypeDef::Unit)],
        TypeDef::I32,
        vec![ret(num(0))],
    )];
    assert!(matches!(Module::from_ast(&defs2), Err(BuildError::IllFormed)));
}
