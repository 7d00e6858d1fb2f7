//! Output values, input values, and their codec to and from the wire tree.
use vstd::prelude::*;

use crate::position::{SourcePosition, Spanning};

verus! {

/// The language-neutral tree that request and response payloads are made of.
/// A floating-point number is carried as its IEEE-754 binary64 bit pattern.
#[derive(Debug)]
pub enum WireValue {
    Null,
    Bool(bool),
    Int(i64),
    Float(u64),
    Str(String),
    Array(Vec<WireValue>),
    Object(Vec<(String, WireValue)>),
}

/// A value produced by execution. Object fields keep selection order.
#[derive(Debug)]
pub enum Value {
    Null,
    Int(i64),
    Float(u64),
    String(String),
    Boolean(bool),
    List(Vec<Value>),
    Object(Vec<(String, Value)>),
}

/// A literal or argument value of a query, with the positions of its parts.
#[derive(Debug)]
pub enum InputValue {
    Null,
    Variable(String),
    Int(i64),
    Float(u64),
    String(String),
    Boolean(bool),
    Enum(String),
    List(Vec<Spanning<InputValue>>),
    Object(Vec<(Spanning<String>, Spanning<InputValue>)>),
}

/// `w` is the wire form of the output value `v`.
pub open spec fn encodes_output(v: Value, w: WireValue) -> bool
    decreases v,
{
    match v {
        Value::Null => w is Null,
        Value::Int(n) => w == WireValue::Int(n),
        Value::Float(b) => w == WireValue::Float(b),
        Value::String(s) => w matches WireValue::Str(t) && t@ == s@,
        Value::Boolean(b) => w == WireValue::Bool(b),
        Value::List(items) => match w {
            WireValue::Array(ws) => ws@.len() == items@.len() && forall|i: int|
                0 <= i < items@.len() ==> encodes_output(#[trigger] items@[i], ws@[i]),
            _ => false,
        },
        Value::Object(fields) => match w {
            WireValue::Object(ws) => ws@.len() == fields@.len() && (forall|i: int|
                0 <= i < fields@.len() ==> (#[trigger] ws@[i]).0@ == fields@[i].0@) && (
            forall|i: int|
                0 <= i < fields@.len() ==> encodes_output(#[trigger] fields@[i].1, ws@[i].1)),
            _ => false,
        },
    }
}

/// Encodes an output value as a wire tree, keeping the order of lists and object fields.
#[verifier::loop_isolation(false)]
pub fn encode_output(v: &Value) -> (w: WireValue)
    ensures
        encodes_output(*v, w),
    decreases v,
{
    match v {
        Value::Null => WireValue::Null,
        Value::Int(n) => WireValue::Int(*n),
        Value::Float(b) => WireValue::Float(*b),
        Value::String(s) => WireValue::Str(s.clone()),
        Value::Boolean(b) => WireValue::Bool(*b),
        Value::List(items) => {
            let mut ws: Vec<WireValue> = Vec::new();
            let mut i: usize = 0;
            while i < items.len()
                invariant
                    i <= items@.len(),
                    ws@.len() == i,
                    forall|j: int| 0 <= j < i ==> encodes_output(#[trigger] items@[j], ws@[j]),
                decreases items@.len() - i,
            {
                proof {
                    assert(decreases_to!(*v => v->List_0));
                    assert(decreases_to!(*items => items[i as int]));
                }
                ws.push(encode_output(&items[i]));
                i = i + 1;
            }
            WireValue::Array(ws)
        },
        Value::Object(fields) => {
            let mut ws: Vec<(String, WireValue)> = Vec::new();
            let mut i: usize = 0;
            while i < fields.len()
                invariant
                    i <= fields@.len(),
                    ws@.len() == i,
                    forall|j: int| 0 <= j < i ==> (#[trigger] ws@[j]).0@ == fields@[j].0@,
                    forall|j: int| 0 <= j < i ==> encodes_output(#[trigger] fields@[j].1, ws@[j].1),
                decreases fields@.len() - i,
            {
                proof {
                    assert(decreases_to!(*v => v->Object_0));
                    assert(decreases_to!(*fields => fields[i as int]));
                    assert(decreases_to!(fields[i as int] => fields[i as int].1));
                }
                let w = encode_output(&fields[i].1);
                ws.push((fields[i].0.clone(), w));
                i = i + 1;
            }
            WireValue::Object(ws)
        },
    }
}

/// `w` is the wire form of the input value `v`. A variable and an explicit null both
/// become wire null, and an enum literal becomes a plain string.
pub open spec fn encodes_input(v: InputValue, w: WireValue) -> bool
    decreases v,
{
    match v {
        InputValue::Null => w is Null,
        InputValue::Variable(_) => w is Null,
        InputValue::Int(n) => w == WireValue::Int(n),
        InputValue::Float(b) => w == WireValue::Float(b),
        InputValue::String(s) => w matches WireValue::Str(t) && t@ == s@,
        InputValue::Boolean(b) => w == WireValue::Bool(b),
        InputValue::Enum(s) => w matches WireValue::Str(t) && t@ == s@,
        InputValue::List(items) => match w {
            WireValue::Array(ws) => ws@.len() == items@.len() && forall|i: int|
                0 <= i < items@.len() ==> encodes_input(#[trigger] items@[i].item, ws@[i]),
            _ => false,
        },
        InputValue::Object(fields) => match w {
            WireValue::Object(ws) => ws@.len() == fields@.len() && (forall|i: int|
                0 <= i < fields@.len() ==> (#[trigger] ws@[i]).0@ == fields@[i].0.item@) && (
            forall|i: int|
                0 <= i < fields@.len() ==> encodes_input(#[trigger] fields@[i].1.item, ws@[i].1)),
            _ => false,
        },
    }
}

/// `v` is the input value read from the wire tree `w`. Parts read from the wire
/// carry the origin as their position, since they come from no document.
pub open spec fn decodes_input(w: WireValue, v: InputValue) -> bool
    decreases w,
{
    match w {
        WireValue::Null => v is Null,
        WireValue::Bool(b) => v == InputValue::Boolean(b),
        WireValue::Int(n) => v == InputValue::Int(n),
        WireValue::Float(b) => v == InputValue::Float(b),
        WireValue::Str(s) => v matches InputValue::String(t) && t@ == s@,
        WireValue::Array(ws) => match v {
            InputValue::List(items) => items@.len() == ws@.len() && (forall|i: int|
                0 <= i < ws@.len() ==> (#[trigger] items@[i]).start == SourcePosition::origin_spec())
                && (forall|i: int|
                0 <= i < ws@.len() ==> decodes_input(#[trigger] ws@[i], items@[i].item)),
            _ => false,
        },
        WireValue::Object(ws) => match v {
            InputValue::Object(fields) => fields@.len() == ws@.len() && (forall|i: int|
                0 <= i < ws@.len() ==> (#[trigger] fields@[i]).0.item@ == ws@[i].0@
                    && fields@[i].0.start == SourcePosition::origin_spec() && fields@[i].1.start
                    == SourcePosition::origin_spec()) && (forall|i: int|
                0 <= i < ws@.len() ==> decodes_input(#[trigger] ws@[i].1, fields@[i].1.item)),
            _ => false,
        },
    }
}

/// Encodes an input value as a wire tree, keeping the order of lists and object fields.
#[verifier::loop_isolation(false)]
pub fn encode_input(v: &InputValue) -> (w: WireValue)
    ensures
        encodes_input(*v, w),
    decreases v,
{
    match v {
        InputValue::Null => WireValue::Null,
        InputValue::Variable(_) => WireValue::Null,
        InputValue::Int(n) => WireValue::Int(*n),
        InputValue::Float(b) => WireValue::Float(*b),
        InputValue::String(s) => WireValue::Str(s.clone()),
        InputValue::Boolean(b) => WireValue::Bool(*b),
        InputValue::Enum(s) => WireValue::Str(s.clone()),
        InputValue::List(items) => {
            let mut ws: Vec<WireValue> = Vec::new();
            let mut i: usize = 0;
            while i < items.len()
                invariant
                    i <= items@.len(),
                    ws@.len() == i,
                    forall|j: int| 0 <= j < i ==> encodes_input(#[trigger] items@[j].item, ws@[j]),
                decreases items@.len() - i,
            {
                proof {
                    assert(decreases_to!(*v => v->List_0));
                    assert(decreases_to!(v->List_0 => items[i as int]));
                    assert(decreases_to!(items[i as int] => items[i as int].item));
                }
                ws.push(encode_input(&items[i].item));
                i = i + 1;
            }
            WireValue::Array(ws)
        },
        InputValue::Object(fields) => {
            let mut ws: Vec<(String, WireValue)> = Vec::new();
            let mut i: usize = 0;
            while i < fields.len()
                invariant
                    i <= fields@.len(),
                    ws@.len() == i,
                    forall|j: int| 0 <= j < i ==> (#[trigger] ws@[j]).0@ == fields@[j].0.item@,
                    forall|j: int|
                        0 <= j < i ==> encodes_input(#[trigger] fields@[j].1.item, ws@[j].1),
                decreases fields@.len() - i,
            {
                proof {
                    assert(decreases_to!(*v => v->Object_0));
                    assert(decreases_to!(v->Object_0 => fields[i as int]));
                    assert(decreases_to!(fields[i as int] => fields[i as int].1));
                    assert(decreases_to!(fields[i as int].1 => fields[i as int].1.item));
                }
                let fw = encode_input(&fields[i].1.item);
                ws.push((fields[i].0.item.clone(), fw));
                i = i + 1;
            }
            WireValue::Object(ws)
        },
    }
}

/// Reads an input value from a wire tree, keeping the order of arrays and object
/// entries. Every part is tagged with the origin.
#[verifier::loop_isolation(false)]
pub fn decode_input(w: &WireValue) -> (v: InputValue)
    ensures
        decodes_input(*w, v),
    decreases w,
{
    match w {
        WireValue::Null => InputValue::Null,
        WireValue::Bool(b) => InputValue::Boolean(*b),
        WireValue::Int(n) => InputValue::Int(*n),
        WireValue::Float(b) => InputValue::Float(*b),
        WireValue::Str(s) => InputValue::String(s.clone()),
        WireValue::Array(ws) => {
            let mut items: Vec<Spanning<InputValue>> = Vec::new();
            let mut i: usize = 0;
            while i < ws.len()
                invariant
                    i <= ws@.len(),
                    items@.len() == i,
                    forall|j: int|
                        0 <= j < i ==> (#[trigger] items@[j]).start == SourcePosition::origin_spec(),
                    forall|j: int| 0 <= j < i ==> decodes_input(#[trigger] ws@[j], items@[j].item),
                decreases ws@.len() - i,
            {
                proof {
                    assert(decreases_to!(*w => w->Array_0));
                    assert(decreases_to!(w->Array_0 => ws[i as int]));
                }
                let item = decode_input(&ws[i]);
                items.push(Spanning::unlocated(item));
                i = i + 1;
            }
            InputValue::List(items)
        },
        WireValue::Object(ws) => {
            let mut fields: Vec<(Spanning<String>, Spanning<InputValue>)> = Vec::new();
            let mut i: usize = 0;
            while i < ws.len()
                invariant
                    i <= ws@.len(),
                    fields@.len() == i,
                    forall|j: int|
                        0 <= j < i ==> (#[trigger] fields@[j]).0.item@ == ws@[j].0@
                            && fields@[j].0.start == SourcePosition::origin_spec()
                            && fields@[j].1.start == SourcePosition::origin_spec(),
                    forall|j: int|
                        0 <= j < i ==> decodes_input(#[trigger] ws@[j].1, fields@[j].1.item),
                decreases ws@.len() - i,
            {
                proof {
                    assert(decreases_to!(*w => w->Object_0));
                    assert(decreases_to!(w->Object_0 => ws[i as int]));
                    assert(decreases_to!(ws[i as int] => ws[i as int].1));
                }
                let item = decode_input(&ws[i].1);
                let key = Spanning::unlocated(ws[i].0.clone());
                fields.push((key, Spanning::unlocated(item)));
                i = i + 1;
            }
            InputValue::Object(fields)
        },
    }
}

/// `iv` holds the content of the output value `v`: the same kind and scalars, and
/// lists and objects whose parts correspond one for one, in the same order.
pub open spec fn mirrors(iv: InputValue, v: Value) -> bool
    decreases v,
{
    match v {
        Value::Null => iv is Null,
        Value::Int(n) => iv == InputValue::Int(n),
        Value::Float(b) => iv == InputValue::Float(b),
        Value::String(s) => iv matches InputValue::String(t) && t@ == s@,
        Value::Boolean(b) => iv == InputValue::Boolean(b),
        Value::List(items) => match iv {
            InputValue::List(ivs) => ivs@.len() == items@.len() && forall|i: int|
                0 <= i < items@.len() ==> mirrors(ivs@[i].item, #[trigger] items@[i]),
            _ => false,
        },
        Value::Object(fields) => match iv {
            InputValue::Object(ifs) => ifs@.len() == fields@.len() && (forall|i: int|
                0 <= i < fields@.len() ==> (#[trigger] ifs@[i]).0.item@ == fields@[i].0@) && (
            forall|i: int|
                0 <= i < fields@.len() ==> mirrors(ifs@[i].1.item, #[trigger] fields@[i].1)),
            _ => false,
        },
    }
}

/// Reading back the wire form of an output value gives an input value with the
/// same content, in the same order, at every depth of nesting.
pub proof fn lemma_output_round_trip(v: Value, w: WireValue, iv: InputValue)
    requires
        encodes_output(v, w),
        decodes_input(w, iv),
    ensures
        mirrors(iv, v),
    decreases v,
{
    match v {
        Value::List(items) => {
            let ws = w->Array_0;
            let ivs = iv->List_0;
            assert forall|i: int| 0 <= i < items@.len() implies mirrors(
                ivs@[i].item,
                #[trigger] items@[i],
            ) by {
                assert(decreases_to!(v => v->List_0));
                assert(decreases_to!(v->List_0 => items[i]));
                assert(decodes_input(ws@[i], ivs@[i].item));
                lemma_output_round_trip(items@[i], ws@[i], ivs@[i].item);
            }
        },
        Value::Object(fields) => {
            let ws = w->Object_0;
            let ifs = iv->Object_0;
            assert forall|i: int| 0 <= i < fields@.len() implies mirrors(
                ifs@[i].1.item,
                #[trigger] fields@[i].1,
            ) by {
                assert(decreases_to!(v => v->Object_0));
                assert(decreases_to!(v->Object_0 => fields[i]));
                assert(decreases_to!(fields[i] => fields[i].1));
                assert(encodes_output(fields@[i].1, ws@[i].1));
                assert(decodes_input(ws@[i].1, ifs@[i].1.item));
                lemma_output_round_trip(fields@[i].1, ws@[i].1, ifs@[i].1.item);
            }
            assert forall|i: int| 0 <= i < fields@.len() implies (#[trigger] ifs@[i]).0.item@
                == fields@[i].0@ by {
                assert(ws@[i].0@ == fields@[i].0@);
            }
        },
        _ => {},
    }
}

/// `a` and `b` are the same wire tree: the same shape and scalars, the same strings,
/// and the same order of array items and object entries.
pub open spec fn same_wire(a: WireValue, b: WireValue) -> bool
    decreases a,
{
    match a {
        WireValue::Str(s) => b matches WireValue::Str(t) && t@ == s@,
        WireValue::Array(xs) => match b {
            WireValue::Array(ys) => ys@.len() == xs@.len() && forall|i: int|
                0 <= i < xs@.len() ==> same_wire(#[trigger] xs@[i], ys@[i]),
            _ => false,
        },
        WireValue::Object(xs) => match b {
            WireValue::Object(ys) => ys@.len() == xs@.len() && (forall|i: int|
                0 <= i < xs@.len() ==> (#[trigger] ys@[i]).0@ == xs@[i].0@) && (forall|i: int|
                0 <= i < xs@.len() ==> same_wire(#[trigger] xs@[i].1, ys@[i].1)),
            _ => false,
        },
        _ => b == a,
    }
}

/// Reading an input value from a wire tree and writing it back gives the same tree.
pub proof fn lemma_input_wire_round_trip(w: WireValue, iv: InputValue, back: WireValue)
    requires
        decodes_input(w, iv),
        encodes_input(iv, back),
    ensures
        same_wire(w, back),
    decreases w,
{
    match w {
        WireValue::Array(ws) => {
            let items = iv->List_0;
            let bs = back->Array_0;
            assert forall|i: int| 0 <= i < ws@.len() implies same_wire(
                #[trigger] ws@[i],
                bs@[i],
            ) by {
                assert(decreases_to!(w => w->Array_0));
                assert(decreases_to!(w->Array_0 => ws[i]));
                assert(decodes_input(ws@[i], items@[i].item));
                assert(encodes_input(items@[i].item, bs@[i]));
                lemma_input_wire_round_trip(ws@[i], items@[i].item, bs@[i]);
            }
        },
        WireValue::Object(ws) => {
            let fields = iv->Object_0;
            let bs = back->Object_0;
            assert forall|i: int| 0 <= i < ws@.len() implies same_wire(
                #[trigger] ws@[i].1,
                bs@[i].1,
            ) by {
                assert(decreases_to!(w => w->Object_0));
                assert(decreases_to!(w->Object_0 => ws[i]));
                assert(decreases_to!(ws[i] => ws[i].1));
                assert(decodes_input(ws@[i].1, fields@[i].1.item));
                assert(encodes_input(fields@[i].1.item, bs@[i].1));
                lemma_input_wire_round_trip(ws@[i].1, fields@[i].1.item, bs@[i].1);
            }
            assert forall|i: int| 0 <= i < ws@.len() implies (#[trigger] bs@[i]).0@ == ws@[i].0@ by {
                assert(fields@[i].0.item@ == ws@[i].0@);
            }
        },
        _ => {},
    }
}

} // verus!
