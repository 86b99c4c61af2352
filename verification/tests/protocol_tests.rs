use std::cmp::Ordering;

use cannolib::heap::Heap;
use cannolib::numeric::NumericType;
use cannolib::objects::CallStep;
use cannolib::table::Table;
use cannolib::value::Value;

fn num(i: i64) -> Value {
    Value::Number(NumericType::Integer(i))
}

fn float(f: f64) -> Value {
    Value::Number(NumericType::Float(f.to_bits()))
}

fn s(text: &str) -> Value {
    Value::Str(String::from(text))
}

#[test]
fn truthiness_sequences() {
    let mut heap = Heap::new();
    let empty = Value::List(heap.alloc_list(Vec::new()));
    let full = Value::List(heap.alloc_list(vec![num(1)]));
    let empty_tup = Value::Tuple(Vec::new());
    let full_tup = Value::Tuple(vec![num(1), num(2)]);

    assert_eq!(empty.to_bool(&heap), false);
    assert_eq!(full.to_bool(&heap), true);
    assert_eq!(empty_tup.to_bool(&heap), false);
    assert_eq!(full_tup.to_bool(&heap), true);
}

#[test]
fn truthiness_callables() {
    let mut heap = Heap::new();
    let func = Value::Function(0);
    let class = Value::Class(Table::new());
    let obj = Value::Object(heap.alloc_object(Table::new()));

    assert_eq!(func.to_bool(&heap), true);
    assert_eq!(class.to_bool(&heap), true);
    assert_eq!(obj.to_bool(&heap), true);
    assert_eq!(float(f64::NAN).to_bool(&heap), true);
    assert_eq!(float(-0.0).to_bool(&heap), false);
}

#[test]
fn eq_cross_variant_is_false() {
    let heap = Heap::new();

    assert_eq!(num(5).eq(&num(5), &heap), true);
    assert_eq!(num(5).eq(&s("5"), &heap), false);
    assert_eq!(s("5").eq(&num(5), &heap), false);
    assert_eq!(num(5).eq(&float(5.0), &heap), true);
    assert_eq!(float(f64::NAN).eq(&float(f64::NAN), &heap), false);
}

#[test]
fn op_rem_value_float() {
    let heap = Heap::new();
    let x = float(5.5);
    let y = float(2.0);

    assert!(x.rem(y).eq(&float(1.5), &heap));
}

#[test]
fn op_neg_value_float() {
    let heap = Heap::new();

    assert!(float(1.5).neg().eq(&float(-1.5), &heap));
}

#[test]
fn op_pow_value_number() {
    let heap = Heap::new();

    assert!(num(2).pow(&num(10)).eq(&num(1024), &heap));
    assert!(num(-3).pow(&num(3)).eq(&num(-27), &heap));
    assert!(num(7).pow(&num(0)).eq(&num(1), &heap));
}

#[test]
fn index_list_and_tuple() {
    let mut heap = Heap::new();
    let list = Value::List(heap.alloc_list(vec![num(10), num(20), num(30)]));
    let tup = Value::Tuple(vec![s("a"), s("b")]);

    assert!(list.index(num(0), &heap).eq(&num(10), &heap));
    assert!(list.index(num(2), &heap).eq(&num(30), &heap));
    assert!(list.index(num(-1), &heap).eq(&num(30), &heap));
    assert!(tup.index(num(1), &heap).eq(&s("b"), &heap));
    assert!(tup.index(num(-2), &heap).eq(&s("a"), &heap));
}

#[test]
fn slice_list_and_tuple() {
    let mut heap = Heap::new();
    let list = Value::List(heap.alloc_list(vec![num(0), num(1), num(2), num(3), num(4)]));

    let mid = list.slice(Some(num(1)), Some(num(4)), None, &mut heap);
    assert!(mid.index(num(0), &heap).eq(&num(1), &heap));
    assert!(mid.index(num(1), &heap).eq(&num(2), &heap));
    assert!(mid.index(num(2), &heap).eq(&num(3), &heap));
    assert_eq!(mid.clone_seq(&heap).len(), 3);

    let rev = list.slice(None, None, Some(num(-1)), &mut heap);
    assert!(rev.index(num(0), &heap).eq(&num(4), &heap));
    assert!(rev.index(num(4), &heap).eq(&num(0), &heap));
    assert_eq!(rev.clone_seq(&heap).len(), 5);

    let stepped = list.slice(None, None, Some(num(2)), &mut heap);
    assert_eq!(stepped.clone_seq(&heap).len(), 3);
    assert!(stepped.index(num(1), &heap).eq(&num(2), &heap));

    let clamped = list.slice(Some(num(-100)), Some(num(100)), None, &mut heap);
    assert_eq!(clamped.clone_seq(&heap).len(), 5);

    let tup = Value::Tuple(vec![num(0), num(1), num(2)]);
    let tail = tup.slice(Some(num(1)), None, None, &mut heap);
    assert!(tail.eq(&Value::Tuple(vec![num(1), num(2)]), &heap));
}

#[test]
fn containment() {
    let mut heap = Heap::new();
    let list = Value::List(heap.alloc_list(vec![num(1), num(2), num(3)]));
    let tup = Value::Tuple(vec![s("a"), s("b")]);

    assert_eq!(num(2).contained_in(&list, &heap), true);
    assert_eq!(num(9).contained_in(&list, &heap), false);
    assert_eq!(num(9).not_contained_in(&list, &heap), true);
    assert_eq!(s("a").contained_in(&tup, &heap), true);
    assert_eq!(s("c").contained_in(&tup, &heap), false);
    assert_eq!(s("sub").contained_in(&s("substring"), &heap), true);
    assert_eq!(s("x").contained_in(&s("substring"), &heap), false);
    assert_eq!(s("").contained_in(&s("anything"), &heap), true);
    assert_eq!(s("x").not_contained_in(&s("substring"), &heap), true);
}

#[test]
fn clone_seq_snapshots() {
    let mut heap = Heap::new();
    let h = heap.alloc_list(vec![num(1), num(2)]);
    let list = Value::List(h);

    let snap = list.clone_seq(&heap);
    assert_eq!(snap.len(), 2);
    heap.list_set(h, 0, num(99));
    // the snapshot is independent of later mutation
    assert!(snap[0].eq(&num(1), &heap));
    assert!(list.index(num(0), &heap).eq(&num(99), &heap));
}

#[test]
fn list_aliasing_observed_through_all_holders() {
    let mut heap = Heap::new();
    let h = heap.alloc_list(vec![num(1), num(2), num(3)]);
    let first = Value::List(h);
    let second = first.dup();

    heap.list_set(h, 1, num(42));
    assert!(first.index(num(1), &heap).eq(&num(42), &heap));
    assert!(second.index(num(1), &heap).eq(&num(42), &heap));

    heap.list_push(h, num(4));
    assert_eq!(second.clone_seq(&heap).len(), 4);
}

#[test]
fn tuple_value_semantics() {
    let heap = Heap::new();
    let a = Value::Tuple(vec![num(1), s("two")]);
    let b = Value::Tuple(vec![num(1), s("two")]);

    assert_eq!(a.eq(&b, &heap), true);
    assert_eq!(a.eq(&a.dup(), &heap), true);
    assert_eq!(a.eq(&Value::Tuple(vec![num(1)]), &heap), false);
}

#[test]
fn class_instantiation_runs_init() {
    let mut heap = Heap::new();
    let mut members = Table::new();
    members.set(String::from("__name__"), s("Point"));
    members.set(String::from("__init__"), Value::Function(0));
    let class = Value::Class(members);

    let step = class.call(Vec::new(), Table::new(), &mut heap);
    let obj = match step {
        CallStep::Constructed { obj, init } => {
            let pending = init.expect("the class table carries __init__");
            match pending.callee {
                Value::Function(0) => {},
                _ => panic!("the initializer must be the __init__ member"),
            }
            // the host runs the initializer: it sets `x` on `self`
            let this = &pending.args[0];
            this.set_attr(String::from("x"), num(5), &mut heap);
            obj
        },
        _ => panic!("calling a class constructs an object"),
    };

    assert!(obj.get_attr("x", &heap).eq(&num(5), &heap));
    assert!(obj.get_attr("__name__", &heap).eq(&s("Point"), &heap));
}

#[test]
fn class_without_init_constructs_plain_object() {
    let mut heap = Heap::new();
    let mut members = Table::new();
    members.set(String::from("__name__"), s("Bare"));
    members.set(String::from("kind"), s("static"));
    let class = Value::Class(members);

    let step = class.call(Vec::new(), Table::new(), &mut heap);
    match step {
        CallStep::Constructed { obj, init } => {
            assert!(init.is_none());
            assert!(obj.get_attr("kind", &heap).eq(&s("static"), &heap));
        },
        _ => panic!("calling a class constructs an object"),
    }
}

#[test]
fn object_attributes_diverge_from_class() {
    let mut heap = Heap::new();
    let mut members = Table::new();
    members.set(String::from("__name__"), s("Counter"));
    members.set(String::from("count"), num(0));
    let class = Value::Class(members);

    let step = class.call(Vec::new(), Table::new(), &mut heap);
    let obj = match step {
        CallStep::Constructed { obj, .. } => obj,
        _ => panic!("calling a class constructs an object"),
    };

    obj.set_attr(String::from("count"), num(7), &mut heap);
    assert!(obj.get_attr("count", &heap).eq(&num(7), &heap));
    // the class table is untouched
    assert!(class.get_attr("count", &heap).eq(&num(0), &heap));
}

#[test]
fn function_call_is_handed_to_host() {
    let mut heap = Heap::new();
    let func = Value::Function(3);
    let step = func.call(vec![num(1)], Table::new(), &mut heap);
    match step {
        CallStep::Invoke(pending) => {
            assert!(matches!(pending.callee, Value::Function(3)));
            assert_eq!(pending.args.len(), 1);
        },
        _ => panic!("calling a function is a host invocation"),
    }
}

#[test]
fn missing_attribute_is_reported() {
    let mut heap = Heap::new();
    let mut members = Table::new();
    members.set(String::from("__name__"), s("Empty"));
    let class = Value::Class(members);
    let obj = match class.call(Vec::new(), Table::new(), &mut heap) {
        CallStep::Constructed { obj, .. } => obj,
        _ => panic!("calling a class constructs an object"),
    };

    assert!(obj.lookup_attr("missing", &heap).is_none());
    assert!(obj.lookup_attr("__name__", &heap).is_some());
    assert!(class.lookup_attr("missing", &heap).is_none());
}

#[test]
fn partial_cmp_values() {
    assert_eq!(num(5).partial_cmp(&num(6)), Some(Ordering::Less));
    assert_eq!(num(6).partial_cmp(&num(6)), Some(Ordering::Equal));
    assert_eq!(s("b").partial_cmp(&s("a")), Some(Ordering::Greater));
    assert_eq!(
        Value::Bool(false).partial_cmp(&Value::Bool(true)),
        Some(Ordering::Less)
    );
    assert_eq!(float(f64::NAN).partial_cmp(&float(1.0)), None);
    assert_eq!(float(1.0).partial_cmp(&float(2.0)), Some(Ordering::Less));
}

#[test]
fn mixed_numeric_comparison() {
    assert_eq!(num(1).lt(&float(1.5)), true);
    assert_eq!(float(1.5).lt(&num(1)), false);
    assert_eq!(num(2).ge(&float(2.0)), true);
}

#[test]
fn repr_renders_values() {
    let mut heap = Heap::new();

    assert_eq!(num(-42).repr(&heap), "-42");
    assert_eq!(num(0).repr(&heap), "0");
    assert_eq!(num(123).repr(&heap), "123");
    assert_eq!(Value::Bool(true).repr(&heap), "True");
    assert_eq!(Value::Bool(false).repr(&heap), "False");
    assert_eq!(Value::NoneVal.repr(&heap), "None");
    assert_eq!(s("plain").repr(&heap), "plain");
    assert_eq!(Value::Function(0).repr(&heap), "<cannoli function>");
    assert_eq!(Value::TextIOWrapper(0).repr(&heap), "TextIOWrapper");

    let list = Value::List(heap.alloc_list(vec![num(1), num(2), num(3)]));
    assert_eq!(list.repr(&heap), "[1, 2, 3]");
    let tup = Value::Tuple(vec![num(1), s("x")]);
    assert_eq!(tup.repr(&heap), "(1, x)");
    let empty = Value::List(heap.alloc_list(Vec::new()));
    assert_eq!(empty.repr(&heap), "[]");

    // the float rendering comes from the tower and is at least non-empty
    assert!(!float(1.5).repr(&heap).is_empty());
    assert_ne!(float(1.5).repr(&heap), float(2.5).repr(&heap));
}

#[test]
fn repr_names_classes_and_objects() {
    let mut heap = Heap::new();
    let mut members = Table::new();
    members.set(String::from("__name__"), s("Widget"));
    let class = Value::Class(members);

    assert_eq!(class.repr(&heap), "<'Widget' class>");

    let obj = match class.call(Vec::new(), Table::new(), &mut heap) {
        CallStep::Constructed { obj, .. } => obj,
        _ => panic!("calling a class constructs an object"),
    };
    assert_eq!(obj.repr(&heap), "<'Widget' object at 0>");
}

#[test]
fn attribute_rebinding_replaces_the_key() {
    let mut heap = Heap::new();
    let mut members = Table::new();
    members.set(String::from("__name__"), s("Box"));
    members.set(String::from("v"), num(1));
    members.set(String::from("v"), num(2));
    let class = Value::Class(members);

    assert!(class.get_attr("v", &heap).eq(&num(2), &heap));

    let obj = match class.call(Vec::new(), Table::new(), &mut heap) {
        CallStep::Constructed { obj, .. } => obj,
        _ => panic!("calling a class constructs an object"),
    };
    obj.set_attr(String::from("v"), num(3), &mut heap);
    obj.set_attr(String::from("v"), num(4), &mut heap);
    assert!(obj.get_attr("v", &heap).eq(&num(4), &heap));
}

#[test]
fn nested_sequences_compare_deeply() {
    let mut heap = Heap::new();
    let inner_a = Value::List(heap.alloc_list(vec![num(1), num(2)]));
    let inner_b = Value::List(heap.alloc_list(vec![num(1), num(2)]));
    let inner_c = Value::List(heap.alloc_list(vec![num(1), num(9)]));

    // distinct handles, equal contents
    assert_eq!(inner_a.eq(&inner_b, &heap), true);
    assert_eq!(inner_a.eq(&inner_c, &heap), false);

    let ta = Value::Tuple(vec![inner_a.dup(), s("tail")]);
    let tb = Value::Tuple(vec![inner_b.dup(), s("tail")]);
    assert_eq!(ta.eq(&tb, &heap), true);

    assert_eq!(inner_a.contained_in(&ta, &heap), true);
    assert_eq!(inner_c.contained_in(&ta, &heap), false);

    let nested = Value::List(heap.alloc_list(vec![ta.dup()]));
    assert_eq!(nested.repr(&heap), "[([1, 2], tail)]");
}
