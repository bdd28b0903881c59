//! Unit tests of the leaves: values and their byte encodings, the scratch
//! memory, scopes, LEB128, and the operator dispatch.

use atlas::interp::{F64Ops, Trap, do_op, do_uop};
use atlas::ir::{Op, UOp};
use atlas::leb128::Leb128;
use atlas::scope::Scope;
use atlas::value::{Mem, TypeDef, Value};

struct HostFloat;

impl F64Ops for HostFloat {
    fn f64_add(&self, a: u64, b: u64) -> u64 {
        (f64::from_bits(a) + f64::from_bits(b)).to_bits()
    }
    fn f64_sub(&self, a: u64, b: u64) -> u64 {
        (f64::from_bits(a) - f64::from_bits(b)).to_bits()
    }
    fn f64_mul(&self, a: u64, b: u64) -> u64 {
        (f64::from_bits(a) * f64::from_bits(b)).to_bits()
    }
    fn f64_div(&self, a: u64, b: u64) -> u64 {
        (f64::from_bits(a) / f64::from_bits(b)).to_bits()
    }
    fn f64_eq(&self, a: u64, b: u64) -> bool {
        f64::from_bits(a) == f64::from_bits(b)
    }
    fn f64_ne(&self, a: u64, b: u64) -> bool {
        f64::from_bits(a) != f64::from_bits(b)
    }
    fn f64_lt(&self, a: u64, b: u64) -> bool {
        f64::from_bits(a) < f64::from_bits(b)
    }
    fn f64_le(&self, a: u64, b: u64) -> bool {
        f64::from_bits(a) <= f64::from_bits(b)
    }
    fn f64_gt(&self, a: u64, b: u64) -> bool {
        f64::from_bits(a) > f64::from_bits(b)
    }
    fn f64_ge(&self, a: u64, b: u64) -> bool {
        f64::from_bits(a) >= f64::from_bits(b)
    }
}

#[test]
fn value_roundtrips() {
    assert_eq!(Value::i32(5).as_i32(), 5);
    assert_eq!(Value::i32(-42).as_i32(), -42);
    assert_eq!(Value::i32(i32::MIN).as_i32(), i32::MIN);
    assert!(Value::bool(true).as_bool());
    assert!(!Value::bool(false).as_bool());
    let bits = 42.2f64.to_bits();
    assert_eq!(Value::f64_from_bits(bits).as_f64_bits(), bits);
}

#[test]
fn value_bytes_are_big_endian() {
    assert_eq!(Value::i32(1).get_bytes().bytes, vec![0, 0, 0, 1]);
    assert_eq!(Value::i32(0x01020304).get_bytes().bytes, vec![1, 2, 3, 4]);
    assert_eq!(Value::bool(true).get_bytes().bytes, vec![1]);
    assert_eq!(Value::unit().get_bytes().bytes, Vec::<u8>::new());
    assert_eq!(Value::i32(7).get_size(), 4);
    assert_eq!(Value::f64_from_bits(0).get_size(), 8);
    assert_eq!(Value::bool(false).get_type(), TypeDef::Bool);
}

#[test]
fn type_sizes() {
    assert_eq!(TypeDef::Unit.size(), 0);
    assert_eq!(TypeDef::Bool.size(), 1);
    assert_eq!(TypeDef::I32.size(), 4);
    assert_eq!(TypeDef::F64.size(), 8);
}

#[test]
fn mem_set_and_get() {
    let mut m = Mem::of_size(16);
    m.set(4, Value::i32(0x0a0b0c0d).get_bytes());
    let v = m.get(4, TypeDef::I32);
    assert_eq!(v.as_i32(), 0x0a0b0c0d);
    assert_eq!(m.bytes[0], 0);
    assert_eq!(m.bytes[8], 0);
    let d = Mem::default();
    assert_eq!(d.bytes.len(), 1024);
    let w = Mem::new(vec![9, 9]);
    assert_eq!(w.bytes, vec![9, 9]);
    let slice: [u8; 4] = m.get_slice(4);
    assert_eq!(slice, [0x0a, 0x0b, 0x0c, 0x0d]);
}

#[test]
fn scope_declair_assign_get() {
    let mut scope = Scope::new();
    scope.declair("x".to_string(), 1);
    assert_eq!(scope.get("x"), Some(1));
    assert_eq!(scope.get("y"), None);
    scope.assign("x".to_string(), 2);
    assert_eq!(scope.get("x"), Some(2));

    let mut child = scope.child();
    assert_eq!(child.get("x"), Some(2));
    child.declair("x".to_string(), 7);
    assert_eq!(child.get("x"), Some(7));
    // Assigning an outer name in a child lands in the child's assign map
    // and is visible to lookups there.
    let mut child2 = scope.child();
    child2.assign("x".to_string(), 9);
    assert_eq!(child2.get("x"), Some(9));
    assert_eq!(child2.assign.len(), 1);
    assert_eq!(child2.locals.len(), 0);
    // Sibling branches start empty.
    let (a, b) = scope.branch();
    assert_eq!(a.get("x"), Some(2));
    assert_eq!(b.get("x"), Some(2));
    assert_eq!(a.locals.len(), 0);
    assert_eq!(b.assign.len(), 0);
}

#[test]
fn leb128_known_encodings() {
    let mut out: Vec<u8> = Vec::new();
    0usize.write_leb128(&mut out);
    assert_eq!(out, vec![0]);
    let mut out = Vec::new();
    624485usize.write_leb128(&mut out);
    assert_eq!(out, vec![0xE5, 0x8E, 0x26]);
    let mut out = Vec::new();
    127usize.write_leb128(&mut out);
    assert_eq!(out, vec![0x7F]);
    let mut out = Vec::new();
    128usize.write_leb128(&mut out);
    assert_eq!(out, vec![0x80, 0x01]);
    let mut out = Vec::new();
    (-1i32).write_leb128(&mut out);
    assert_eq!(out, vec![0x7F]);
    let mut out = Vec::new();
    (-123456i32).write_leb128(&mut out);
    assert_eq!(out, vec![0xC0, 0xBB, 0x78]);
    let mut out = Vec::new();
    63i32.write_leb128(&mut out);
    assert_eq!(out, vec![0x3F]);
    let mut out = Vec::new();
    64i32.write_leb128(&mut out);
    assert_eq!(out, vec![0xC0, 0x00]);
    let mut out = Vec::new();
    (-64i32).write_leb128(&mut out);
    assert_eq!(out, vec![0x40]);
}

#[test]
fn decimal_and_float_text() {
    let mut out: Vec<u8> = Vec::new();
    atlas::text::push_dec(&mut out, 0);
    assert_eq!(out, b"0".to_vec());
    let mut out = Vec::new();
    atlas::text::push_dec(&mut out, 1234567890);
    assert_eq!(out, b"1234567890".to_vec());
    let mut out = Vec::new();
    atlas::text::push_dec_i32(&mut out, -42);
    assert_eq!(out, b"-42".to_vec());
    let mut out = Vec::new();
    atlas::text::push_dec_i32(&mut out, i32::MIN);
    assert_eq!(out, b"-2147483648".to_vec());
    // 1.0 is 0x1.0000000000000p+0; -42.2 has a sign and exponent 5.
    let mut out = Vec::new();
    atlas::text::push_f64_wat(&mut out, 1.0f64.to_bits());
    assert_eq!(out, b"0x1.0000000000000p+0".to_vec());
    let mut out = Vec::new();
    atlas::text::push_f64_wat(&mut out, (-42.2f64).to_bits());
    let s = String::from_utf8(out).unwrap();
    assert!(s.starts_with("-0x1."));
    assert!(s.ends_with("p+5"));
    let mut out = Vec::new();
    atlas::text::push_f64_wat(&mut out, f64::INFINITY.to_bits());
    assert_eq!(out, b"inf".to_vec());
    let mut out = Vec::new();
    atlas::text::push_f64_wat(&mut out, f64::NAN.to_bits());
    let s = String::from_utf8(out).unwrap();
    assert!(s.ends_with("nan"));
    let mut out = Vec::new();
    atlas::text::push_f64_wat(&mut out, 0);
    assert_eq!(out, b"0x0p+0".to_vec());
}

#[test]
fn do_op_exact_results() {
    let h = HostFloat;
    assert_eq!(do_op(&h, Op::Add, &Value::i32(1), &Value::i32(2)), Ok(Value::i32(3)));
    assert_eq!(do_op(&h, Op::Sub, &Value::i32(2), &Value::i32(40)), Ok(Value::i32(-38)));
    assert_eq!(do_op(&h, Op::Mul, &Value::i32(20), &Value::i32(2)), Ok(Value::i32(40)));
    assert_eq!(do_op(&h, Op::Div, &Value::i32(40), &Value::i32(2)), Ok(Value::i32(20)));
    assert_eq!(do_op(&h, Op::Div, &Value::i32(-7), &Value::i32(2)), Ok(Value::i32(-3)));
    assert_eq!(do_op(&h, Op::Div, &Value::i32(1), &Value::i32(0)), Err(Trap::DivByZero));
    assert_eq!(
        do_op(&h, Op::Div, &Value::i32(i32::MIN), &Value::i32(-1)),
        Err(Trap::Overflow)
    );
    assert_eq!(do_op(&h, Op::Eq, &Value::i32(12), &Value::i32(12)), Ok(Value::bool(true)));
    assert_eq!(do_op(&h, Op::Lt, &Value::i32(1), &Value::i32(2)), Ok(Value::bool(true)));
    assert_eq!(do_op(&h, Op::Ge, &Value::i32(1), &Value::i32(2)), Ok(Value::bool(false)));
    assert_eq!(
        do_op(&h, Op::Eq, &Value::bool(true), &Value::bool(true)),
        Ok(Value::bool(true))
    );
    assert_eq!(
        do_op(&h, Op::Lt, &Value::bool(true), &Value::bool(true)),
        Err(Trap::TypeMismatch)
    );
    assert_eq!(
        do_op(&h, Op::Add, &Value::i32(1), &Value::bool(true)),
        Err(Trap::TypeMismatch)
    );
    let x = 38.2f64;
    let y = 3.8f64;
    assert_eq!(
        do_op(&h, Op::Add, &Value::f64_from_bits(x.to_bits()), &Value::f64_from_bits(y.to_bits())),
        Ok(Value::f64_from_bits((x + y).to_bits()))
    );
    assert_eq!(
        do_op(&h, Op::Lt, &Value::f64_from_bits(y.to_bits()), &Value::f64_from_bits(x.to_bits())),
        Ok(Value::bool(true))
    );
}

#[test]
fn do_uop_exact_results() {
    assert_eq!(do_uop(UOp::Neg, &Value::i32(42)), Ok(Value::i32(-42)));
    assert_eq!(do_uop(UOp::Neg, &Value::i32(i32::MIN)), Ok(Value::i32(i32::MIN)));
    assert_eq!(do_uop(UOp::Not, &Value::bool(true)), Ok(Value::bool(false)));
    assert_eq!(do_uop(UOp::Not, &Value::i32(1)), Err(Trap::TypeMismatch));
    assert_eq!(do_uop(UOp::Neg, &Value::bool(true)), Err(Trap::TypeMismatch));
    let bits = 42.2f64.to_bits();
    assert_eq!(
        do_uop(UOp::Neg, &Value::f64_from_bits(bits)),
        Ok(Value::f64_from_bits((-42.2f64).to_bits()))
    );
}
