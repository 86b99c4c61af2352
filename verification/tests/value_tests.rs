use cannolib::heap::Heap;
use cannolib::numeric::NumericType;
use cannolib::value::Value;

fn num(i: i64) -> Value {
    Value::Number(NumericType::Integer(i))
}

fn float(f: f64) -> Value {
    Value::Number(NumericType::Float(f.to_bits()))
}

fn s(text: &str) -> Value {
    Value::Str(String::from(text))
}

#[test]
fn self_to_bool_number() {
    let heap = Heap::new();
    let a = float(1.5);
    let b = float(0.0);
    let x = num(15);
    let y = num(0);
    let z = num(-1);

    assert_eq!(a.to_bool(&heap), true);
    assert_eq!(b.to_bool(&heap), false);
    assert_eq!(x.to_bool(&heap), true);
    assert_eq!(y.to_bool(&heap), false);
    assert_eq!(z.to_bool(&heap), true);
}

#[test]
fn self_to_bool_str() {
    let heap = Heap::new();
    let x = s("");
    let y = s("test");

    assert_eq!(x.to_bool(&heap), false);
    assert_eq!(y.to_bool(&heap), true);
}

#[test]
fn self_to_bool_bool() {
    let heap = Heap::new();
    let x = Value::Bool(true);
    let y = Value::Bool(false);

    assert_eq!(x.to_bool(&heap), true);
    assert_eq!(y.to_bool(&heap), false);
}

#[test]
fn self_to_bool_none() {
    let heap = Heap::new();
    let x = Value::NoneVal;

    assert_eq!(x.to_bool(&heap), false);
}

#[test]
fn self_logical_not_number() {
    let heap = Heap::new();
    let a = float(1.5);
    let b = float(0.0);
    let x = num(15);
    let y = num(0);
    let z = num(-1);

    assert!(a.logical_not(&heap).eq(&Value::Bool(false), &heap));
    assert!(b.logical_not(&heap).eq(&Value::Bool(true), &heap));
    assert!(x.logical_not(&heap).eq(&Value::Bool(false), &heap));
    assert!(y.logical_not(&heap).eq(&Value::Bool(true), &heap));
    assert!(z.logical_not(&heap).eq(&Value::Bool(false), &heap));
}

#[test]
fn self_logical_not_str() {
    let heap = Heap::new();
    let x = s("");
    let y = s("test");

    assert!(x.logical_not(&heap).eq(&Value::Bool(true), &heap));
    assert!(y.logical_not(&heap).eq(&Value::Bool(false), &heap));
}

#[test]
fn self_logical_not_bool() {
    let heap = Heap::new();
    let x = Value::Bool(true);
    let y = Value::Bool(false);

    assert!(x.logical_not(&heap).eq(&Value::Bool(false), &heap));
    assert!(y.logical_not(&heap).eq(&Value::Bool(true), &heap));
}

#[test]
fn self_logical_not_none() {
    let heap = Heap::new();
    let x = Value::NoneVal;

    assert!(x.logical_not(&heap).eq(&Value::Bool(true), &heap));
}

#[test]
fn partial_eq_value_number() {
    let heap = Heap::new();
    let x = num(5);
    let y = num(6);
    let z = num(5);
    let none = Value::NoneVal;

    assert_eq!(x.eq(&z, &heap), true);
    assert_eq!(x.eq(&y, &heap), false);
    assert_eq!(x.ne(&y, &heap), true);
    assert_eq!(x.eq(&none, &heap), false);
    assert_eq!(x.ne(&none, &heap), true);
}

#[test]
fn partial_eq_value_str() {
    let heap = Heap::new();
    let x = s("test");
    let y = s("word");

    assert_eq!(x.eq(&x, &heap), true);
    assert_eq!(x.eq(&y, &heap), false);
    assert_eq!(x.ne(&y, &heap), true);
}

#[test]
fn partial_eq_value_bool() {
    let heap = Heap::new();
    let x = Value::Bool(true);
    let y = Value::Bool(false);

    assert_eq!(x.eq(&x, &heap), true);
    assert_eq!(x.eq(&y, &heap), false);
    assert_eq!(x.ne(&y, &heap), true);
}

#[test]
fn partial_eq_value_none() {
    let heap = Heap::new();
    let x = Value::Bool(true);
    let none = Value::NoneVal;

    assert_eq!(none.eq(&none, &heap), true);
    assert_eq!(x.eq(&none, &heap), false);
    assert_eq!(x.ne(&none, &heap), true);
}

#[test]
fn partial_ord_value_number() {
    let x = num(5);
    let y = num(6);

    assert_eq!(x.lt(&y), true);
    assert_eq!(y.gt(&x), true);
    assert_eq!(x.ge(&x), true);
    assert_eq!(x.le(&y), true);
}

#[test]
fn partial_ord_value_str() {
    let x = s("a");
    let y = s("z");

    assert_eq!(x.lt(&y), true);
    assert_eq!(x.gt(&y), false);
    assert_eq!(x.ge(&y), false);
    assert_eq!(x.le(&y), true);
}

#[test]
fn partial_ord_value_bool() {
    let x = Value::Bool(true);
    let y = Value::Bool(false);

    assert_eq!(x.lt(&y), false);
    assert_eq!(x.gt(&y), true);
    assert_eq!(x.ge(&y), true);
    assert_eq!(x.le(&y), false);
}

#[test]
fn op_add_value_number() {
    let heap = Heap::new();
    let x = num(5);
    let y = num(6);
    let z = float(2.0);

    assert!(x.dup().add(y).eq(&num(11), &heap));
    assert!(x.dup().add(z).eq(&float(7.0), &heap));
}

#[test]
fn op_add_value_str() {
    let heap = Heap::new();
    let x = s("test");
    let y = s("concat");

    assert!(x.add(y).eq(&s("testconcat"), &heap));
}

#[test]
fn op_bitand_value_number() {
    let heap = Heap::new();
    let x = num(1);
    let y = num(2);

    assert!(x.bitand(y).eq(&num(0), &heap))
}

#[test]
fn op_bitor_value_number() {
    let heap = Heap::new();
    let x = num(1);
    let y = num(2);

    assert!(x.bitor(y).eq(&num(3), &heap))
}

#[test]
fn op_bitxor_value_number() {
    let heap = Heap::new();
    let x = num(1);
    let y = num(2);

    assert!(x.bitxor(y).eq(&num(3), &heap))
}

#[test]
fn op_div_value_number() {
    let heap = Heap::new();
    let x = num(1);
    let y = num(2);
    let z = float(2.0);

    assert!(x.dup().div(y.dup()).eq(&float(0.5), &heap));
    assert!(x.dup().div(z.dup()).eq(&float(0.5), &heap));
    assert!(y.dup().div(x.dup()).eq(&float(2.0), &heap));
    assert!(z.dup().div(z.dup()).eq(&float(1.0), &heap));
}

#[test]
fn op_mul_value_number() {
    let heap = Heap::new();
    let x = num(5);
    let y = num(6);
    let z = float(2.0);

    assert!(x.dup().mul(y).eq(&num(30), &heap));
    assert!(x.dup().mul(z).eq(&float(10.0), &heap));
}

#[test]
fn op_neg_value_number() {
    let heap = Heap::new();
    let x = num(5);
    let y = num(-2);
    let z = num(0);

    assert!(x.neg().eq(&num(-5), &heap));
    assert!(y.neg().eq(&num(2), &heap));
    assert!(z.neg().eq(&num(0), &heap));
}

#[test]
fn op_neg_value_bool() {
    let heap = Heap::new();
    let x = Value::Bool(true);
    let y = Value::Bool(false);

    assert!(x.neg().eq(&num(-1), &heap));
    assert!(y.neg().eq(&num(0), &heap));
}

#[test]
fn op_not_value_number() {
    let heap = Heap::new();
    let x = num(5);
    let y = num(-2);
    let z = num(0);

    assert!(x.not().eq(&num(-6), &heap));
    assert!(y.not().eq(&num(1), &heap));
    assert!(z.not().eq(&num(-1), &heap));
}

#[test]
fn op_not_value_bool() {
    let heap = Heap::new();
    let x = Value::Bool(true);
    let y = Value::Bool(false);

    assert!(x.not().eq(&num(-2), &heap));
    assert!(y.not().eq(&num(-1), &heap));
}

#[test]
fn op_rem_value_number() {
    let heap = Heap::new();
    let x = num(10);
    let y = num(3);

    assert!(x.rem(y).eq(&num(1), &heap));
}

#[test]
fn op_shl_value_number() {
    let heap = Heap::new();
    let x = num(128);
    let y = num(4);

    assert!(x.shl(y).eq(&num(2048), &heap));
}

#[test]
fn op_shr_value_number() {
    let heap = Heap::new();
    let x = num(64);
    let y = num(2);
    let a = num(1);
    let b = num(5);

    assert!(x.shr(y).eq(&num(16), &heap));
    assert!(a.shr(b).eq(&num(0), &heap));
}

#[test]
fn op_sub_value_number() {
    let heap = Heap::new();
    let x = num(5);
    let y = num(6);
    let z = float(2.0);

    assert!(x.dup().sub(y).eq(&num(-1), &heap));
    assert!(x.dup().sub(z).eq(&float(3.0), &heap));
}
