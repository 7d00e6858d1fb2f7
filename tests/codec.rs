use graphql_wire::error::{
    encode_execution_error, encode_parse_error, encode_path, encode_position, encode_request_error,
    encode_rule_error, ExecutionError, GraphQLError, ParseError, PathSegment, RuleError,
};
use graphql_wire::position::{SourcePosition, Spanning};
use graphql_wire::value::{decode_input, encode_input, encode_output, InputValue, Value, WireValue};

fn json(w: &WireValue) -> String {
    match w {
        WireValue::Null => "null".to_string(),
        WireValue::Bool(b) => b.to_string(),
        WireValue::Int(n) => n.to_string(),
        WireValue::Float(bits) => format!("{:?}", f64::from_bits(*bits)),
        WireValue::Str(s) => format!("\"{}\"", s),
        WireValue::Array(items) => {
            let parts: Vec<String> = items.iter().map(json).collect();
            format!("[{}]", parts.join(","))
        }
        WireValue::Object(fields) => {
            let parts: Vec<String> =
                fields.iter().map(|(k, v)| format!("\"{}\":{}", k, json(v))).collect();
            format!("{{{}}}", parts.join(","))
        }
    }
}

fn input_text(v: &InputValue) -> String {
    match v {
        InputValue::Null => "null".to_string(),
        InputValue::Variable(n) => format!("${}", n),
        InputValue::Int(n) => n.to_string(),
        InputValue::Float(bits) => format!("{:?}", f64::from_bits(*bits)),
        InputValue::String(s) => format!("\"{}\"", s),
        InputValue::Boolean(b) => b.to_string(),
        InputValue::Enum(s) => s.clone(),
        InputValue::List(items) => {
            let parts: Vec<String> = items.iter().map(|i| input_text(&i.item)).collect();
            format!("[{}]", parts.join(","))
        }
        InputValue::Object(fields) => {
            let parts: Vec<String> = fields
                .iter()
                .map(|(k, v)| format!("{}:{}", k.item, input_text(&v.item)))
                .collect();
            format!("{{{}}}", parts.join(","))
        }
    }
}

fn pos(line: u32, column: u32) -> SourcePosition {
    SourcePosition::new(line, column)
}

#[test]
fn position_is_sent_one_based() {
    assert_eq!(json(&encode_position(&pos(0, 0))), r#"{"line":1,"column":1}"#);
    assert_eq!(json(&encode_position(&pos(2, 5))), r#"{"line":3,"column":6}"#);
    assert_eq!(
        json(&encode_position(&pos(u32::MAX, 7))),
        r#"{"line":4294967296,"column":8}"#
    );
}

#[test]
fn execution_error_has_message_one_location_and_path() {
    let e = ExecutionError {
        message: "boom".to_string(),
        location: pos(2, 5),
        path: vec![
            PathSegment::Field("a".to_string()),
            PathSegment::Index(0),
            PathSegment::Field("b".to_string()),
        ],
    };
    assert_eq!(
        json(&encode_execution_error(&e)),
        r#"{"message":"boom","locations":[{"line":3,"column":6}],"path":["a",0,"b"]}"#
    );
}

#[test]
fn execution_error_with_empty_path() {
    let e = ExecutionError { message: "x".to_string(), location: pos(0, 0), path: vec![] };
    assert_eq!(
        json(&encode_execution_error(&e)),
        r#"{"message":"x","locations":[{"line":1,"column":1}],"path":[]}"#
    );
    assert_eq!(json(&encode_path(&vec![])), "[]");
}

#[test]
fn rule_error_lists_every_location() {
    let e = RuleError { message: "dup".to_string(), locations: vec![pos(0, 0), pos(1, 1)] };
    assert_eq!(
        json(&encode_rule_error(&e)),
        r#"{"message":"dup","locations":[{"line":1,"column":1},{"line":2,"column":2}]}"#
    );
}

#[test]
fn rule_error_without_locations() {
    let e = RuleError { message: "bad".to_string(), locations: vec![] };
    assert_eq!(json(&encode_rule_error(&e)), r#"{"message":"bad","locations":[]}"#);
}

#[test]
fn parse_error_wraps_its_position() {
    let e = ParseError { message: "Unexpected end of input".to_string(), position: pos(4, 0) };
    assert_eq!(
        json(&encode_parse_error(&e)),
        r#"{"message":"Unexpected end of input","locations":[{"line":5,"column":1}]}"#
    );
}

#[test]
fn request_errors() {
    let parse = GraphQLError::ParseError(ParseError { message: "p".to_string(), position: pos(0, 1) });
    assert_eq!(
        json(&encode_request_error(&parse)),
        r#"[{"message":"p","locations":[{"line":1,"column":2}]}]"#
    );
    let validation = GraphQLError::ValidationError(vec![
        RuleError { message: "r1".to_string(), locations: vec![pos(1, 0)] },
        RuleError { message: "r2".to_string(), locations: vec![] },
    ]);
    assert_eq!(
        json(&encode_request_error(&validation)),
        r#"[{"message":"r1","locations":[{"line":2,"column":1}]},{"message":"r2","locations":[]}]"#
    );
    assert_eq!(
        json(&encode_request_error(&GraphQLError::NoOperationProvided)),
        r#""Must provide an operation""#
    );
    assert_eq!(
        json(&encode_request_error(&GraphQLError::MultipleOperationsProvided)),
        r#""Must provide operation name if query contains multiple operations""#
    );
    assert_eq!(
        json(&encode_request_error(&GraphQLError::UnknownOperationName)),
        r#""Unknown operation""#
    );
}

#[test]
fn output_values_encode_in_order() {
    let v = Value::Object(vec![
        ("b".to_string(), Value::Int(-3)),
        ("a".to_string(), Value::List(vec![Value::Boolean(true), Value::Null])),
        ("s".to_string(), Value::String("hi".to_string())),
        ("f".to_string(), Value::Float(1.5f64.to_bits())),
    ]);
    assert_eq!(json(&encode_output(&v)), r#"{"b":-3,"a":[true,null],"s":"hi","f":1.5}"#);
}

#[test]
fn null_and_variable_both_encode_as_null() {
    assert!(matches!(encode_input(&InputValue::Null), WireValue::Null));
    assert!(matches!(encode_input(&InputValue::Variable("x".to_string())), WireValue::Null));
}

#[test]
fn enum_encodes_as_plain_string() {
    let w = encode_input(&InputValue::Enum("RED".to_string()));
    assert_eq!(json(&w), r#""RED""#);
    assert_eq!(json(&encode_input(&InputValue::String("RED".to_string()))), json(&w));
}

#[test]
fn input_lists_and_objects_encode_in_order() {
    let at = pos(3, 4);
    let v = InputValue::Object(vec![
        (
            Spanning::new("z".to_string(), at),
            Spanning::new(InputValue::List(vec![Spanning::new(InputValue::Int(1), at)]), at),
        ),
        (Spanning::new("a".to_string(), at), Spanning::new(InputValue::Boolean(false), at)),
        (Spanning::new("z".to_string(), at), Spanning::new(InputValue::Float(0.25f64.to_bits()), at)),
    ]);
    assert_eq!(json(&encode_input(&v)), r#"{"z":[1],"a":false,"z":0.25}"#);
}

#[test]
fn decode_reads_every_wire_shape() {
    let w = WireValue::Object(vec![
        ("n".to_string(), WireValue::Null),
        ("b".to_string(), WireValue::Bool(true)),
        ("i".to_string(), WireValue::Int(i64::MIN)),
        ("f".to_string(), WireValue::Float(2.5f64.to_bits())),
        ("s".to_string(), WireValue::Str("t".to_string())),
        ("l".to_string(), WireValue::Array(vec![WireValue::Int(1), WireValue::Int(2)])),
    ]);
    let v = decode_input(&w);
    assert_eq!(input_text(&v), r#"{n:null,b:true,i:-9223372036854775808,f:2.5,s:"t",l:[1,2]}"#);
    match v {
        InputValue::Object(fields) => {
            assert_eq!(fields.len(), 6);
            for (k, val) in &fields {
                assert_eq!(k.start, SourcePosition::origin());
                assert_eq!(val.start, SourcePosition::origin());
            }
        }
        _ => panic!("expected an object"),
    }
}

#[test]
fn nested_output_round_trips_through_the_wire() {
    let v = Value::List(vec![
        Value::Object(vec![
            ("k".to_string(), Value::List(vec![Value::Int(7), Value::String("s".to_string())])),
            ("j".to_string(), Value::Float(3.0f64.to_bits())),
        ]),
        Value::List(vec![Value::List(vec![Value::Boolean(false)])]),
    ]);
    let back = decode_input(&encode_output(&v));
    assert_eq!(input_text(&back), r#"[{k:[7,"s"],j:3.0},[[false]]]"#);
    assert_eq!(json(&encode_input(&back)), json(&encode_output(&v)));
}

#[test]
fn scalar_outputs_round_trip() {
    for v in [Value::Int(42), Value::Boolean(true), Value::String("q".to_string()), Value::Null] {
        let w = encode_output(&v);
        assert_eq!(json(&encode_input(&decode_input(&w))), json(&w));
    }
    assert!(matches!(decode_input(&encode_output(&Value::Int(42))), InputValue::Int(42)));
}
