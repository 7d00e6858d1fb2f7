//! The error kinds of a request and their canonical wire shapes.
use vstd::prelude::*;

use crate::position::SourcePosition;
use crate::value::WireValue;

verus! {

/// One step of the path from the response root to the field that failed.
#[derive(Clone, Debug, PartialEq, Eq)]
pub enum PathSegment {
    Field(String),
    Index(u32),
}

/// A failure of a field resolver or of a coercion during execution.
#[derive(Clone, Debug)]
pub struct ExecutionError {
    pub message: String,
    pub location: SourcePosition,
    pub path: Vec<PathSegment>,
}

/// A failure to lex or parse a query document, at the position where it was found.
#[derive(Clone, Debug)]
pub struct ParseError {
    pub message: String,
    pub position: SourcePosition,
}

/// A failure of a validation rule, at zero or more positions of the document.
#[derive(Clone, Debug)]
pub struct RuleError {
    pub message: String,
    pub locations: Vec<SourcePosition>,
}

/// Why a request could not be executed at all.
#[derive(Clone, Debug)]
pub enum GraphQLError {
    ParseError(ParseError),
    ValidationError(Vec<RuleError>),
    NoOperationProvided,
    MultipleOperationsProvided,
    UnknownOperationName,
}

/// `w` is a wire string holding `s`.
pub open spec fn is_str(w: WireValue, s: Seq<char>) -> bool {
    w matches WireValue::Str(t) && t@ == s
}

/// `w` is a wire integer equal to `n`.
pub open spec fn is_int(w: WireValue, n: int) -> bool {
    w matches WireValue::Int(x) && x == n
}

/// `w` is a wire object with exactly `n` entries.
pub open spec fn is_object_of_len(w: WireValue, n: int) -> bool {
    w matches WireValue::Object(fs) && fs@.len() == n
}

/// The key of entry `i` of the wire object `w`.
pub open spec fn key_at(w: WireValue, i: int) -> Seq<char> {
    w->Object_0@[i].0@
}

/// The value of entry `i` of the wire object `w`.
pub open spec fn value_at(w: WireValue, i: int) -> WireValue {
    w->Object_0@[i].1
}

/// `w` is `{"line": line + 1, "column": column + 1}`: positions are stored from zero
/// and sent from one.
pub open spec fn encodes_position(p: SourcePosition, w: WireValue) -> bool {
    &&& is_object_of_len(w, 2)
    &&& key_at(w, 0) == "line"@
    &&& is_int(value_at(w, 0), p.line + 1)
    &&& key_at(w, 1) == "column"@
    &&& is_int(value_at(w, 1), p.column + 1)
}

/// `w` is a wire array holding the wire form of each position of `ps`, in order.
pub open spec fn encodes_positions(ps: Seq<SourcePosition>, w: WireValue) -> bool {
    w matches WireValue::Array(ws) && ws@.len() == ps.len() && forall|i: int|
        0 <= i < ps.len() ==> encodes_position(ps[i], #[trigger] ws@[i])
}

/// `w` is the wire form of one path segment: a field name as a string, an index
/// as an integer.
pub open spec fn encodes_segment(seg: PathSegment, w: WireValue) -> bool {
    match seg {
        PathSegment::Field(name) => is_str(w, name@),
        PathSegment::Index(k) => is_int(w, k as int),
    }
}

/// `w` is a wire array holding each segment of `path`, in order.
pub open spec fn encodes_path(path: Seq<PathSegment>, w: WireValue) -> bool {
    w matches WireValue::Array(ws) && ws@.len() == path.len() && forall|i: int|
        0 <= i < path.len() ==> encodes_segment(path[i], #[trigger] ws@[i])
}

/// `w` is `{"message": ..., "locations": [position], "path": [...]}`.
pub open spec fn encodes_execution_error(e: ExecutionError, w: WireValue) -> bool {
    &&& is_object_of_len(w, 3)
    &&& key_at(w, 0) == "message"@
    &&& is_str(value_at(w, 0), e.message@)
    &&& key_at(w, 1) == "locations"@
    &&& encodes_positions(seq![e.location], value_at(w, 1))
    &&& key_at(w, 2) == "path"@
    &&& encodes_path(e.path@, value_at(w, 2))
}

/// `w` is `{"message": ..., "locations": [position]}`.
pub open spec fn encodes_parse_error(e: ParseError, w: WireValue) -> bool {
    &&& is_object_of_len(w, 2)
    &&& key_at(w, 0) == "message"@
    &&& is_str(value_at(w, 0), e.message@)
    &&& key_at(w, 1) == "locations"@
    &&& encodes_positions(seq![e.position], value_at(w, 1))
}

/// `w` is `{"message": ..., "locations": [position, ...]}` with every position of `e`.
pub open spec fn encodes_rule_error(e: RuleError, w: WireValue) -> bool {
    &&& is_object_of_len(w, 2)
    &&& key_at(w, 0) == "message"@
    &&& is_str(value_at(w, 0), e.message@)
    &&& key_at(w, 1) == "locations"@
    &&& encodes_positions(e.locations@, value_at(w, 1))
}

/// Encodes a position, one-based.
pub fn encode_position(p: &SourcePosition) -> (w: WireValue)
    ensures
        encodes_position(*p, w),
{
    let mut fs: Vec<(String, WireValue)> = Vec::new();
    fs.push(("line".to_owned(), WireValue::Int(p.line as i64 + 1)));
    fs.push(("column".to_owned(), WireValue::Int(p.column as i64 + 1)));
    WireValue::Object(fs)
}

/// Encodes positions as a wire array, in order.
pub fn encode_positions(ps: &Vec<SourcePosition>) -> (w: WireValue)
    ensures
        encodes_positions(ps@, w),
{
    let mut ws: Vec<WireValue> = Vec::new();
    let mut i: usize = 0;
    while i < ps.len()
        invariant
            i <= ps@.len(),
            ws@.len() == i,
            forall|j: int| 0 <= j < i ==> encodes_position(ps@[j], #[trigger] ws@[j]),
        decreases ps@.len() - i,
    {
        ws.push(encode_position(&ps[i]));
        i = i + 1;
    }
    WireValue::Array(ws)
}

/// Encodes a path as a wire array of strings and integers, in order.
pub fn encode_path(path: &Vec<PathSegment>) -> (w: WireValue)
    ensures
        encodes_path(path@, w),
{
    let mut ws: Vec<WireValue> = Vec::new();
    let mut i: usize = 0;
    while i < path.len()
        invariant
            i <= path@.len(),
            ws@.len() == i,
            forall|j: int| 0 <= j < i ==> encodes_segment(path@[j], #[trigger] ws@[j]),
        decreases path@.len() - i,
    {
        let w = match &path[i] {
            PathSegment::Field(name) => WireValue::Str(name.clone()),
            PathSegment::Index(k) => WireValue::Int(*k as i64),
        };
        ws.push(w);
        i = i + 1;
    }
    WireValue::Array(ws)
}

/// Encodes an execution error as `{"message", "locations", "path"}`, with its one
/// position wrapped in an array.
pub fn encode_execution_error(e: &ExecutionError) -> (w: WireValue)
    ensures
        encodes_execution_error(*e, w),
{
    let mut locations: Vec<WireValue> = Vec::new();
    locations.push(encode_position(&e.location));
    let mut fs: Vec<(String, WireValue)> = Vec::new();
    fs.push(("message".to_owned(), WireValue::Str(e.message.clone())));
    fs.push(("locations".to_owned(), WireValue::Array(locations)));
    fs.push(("path".to_owned(), encode_path(&e.path)));
    WireValue::Object(fs)
}

/// Encodes a parse error as `{"message", "locations"}`, with its one position
/// wrapped in an array.
pub fn encode_parse_error(e: &ParseError) -> (w: WireValue)
    ensures
        encodes_parse_error(*e, w),
{
    let mut locations: Vec<WireValue> = Vec::new();
    locations.push(encode_position(&e.position));
    let mut fs: Vec<(String, WireValue)> = Vec::new();
    fs.push(("message".to_owned(), WireValue::Str(e.message.clone())));
    fs.push(("locations".to_owned(), WireValue::Array(locations)));
    WireValue::Object(fs)
}

/// Encodes a validation error as `{"message", "locations"}` with all of its positions.
pub fn encode_rule_error(e: &RuleError) -> (w: WireValue)
    ensures
        encodes_rule_error(*e, w),
{
    let mut fs: Vec<(String, WireValue)> = Vec::new();
    fs.push(("message".to_owned(), WireValue::Str(e.message.clone())));
    fs.push(("locations".to_owned(), encode_positions(&e.locations)));
    WireValue::Object(fs)
}

/// `w` is the wire form of a request error: the errors of the document as an array
/// of error entries, or a fixed message for a request whose operation cannot be chosen.
pub open spec fn encodes_request_error(e: GraphQLError, w: WireValue) -> bool {
    match e {
        GraphQLError::ParseError(pe) => w matches WireValue::Array(ws) && ws@.len() == 1
            && encodes_parse_error(pe, ws@[0]),
        GraphQLError::ValidationError(errs) => w matches WireValue::Array(ws) && ws@.len()
            == errs@.len() && forall|i: int|
            0 <= i < errs@.len() ==> encodes_rule_error(errs@[i], #[trigger] ws@[i]),
        GraphQLError::NoOperationProvided => is_str(w, "Must provide an operation"@),
        GraphQLError::MultipleOperationsProvided => is_str(
            w,
            "Must provide operation name if query contains multiple operations"@,
        ),
        GraphQLError::UnknownOperationName => is_str(w, "Unknown operation"@),
    }
}

/// Encodes a request error: a parse error as a one-entry array, validation errors
/// as an array of entries in order, and the operation errors as their messages.
pub fn encode_request_error(e: &GraphQLError) -> (w: WireValue)
    ensures
        encodes_request_error(*e, w),
{
    match e {
        GraphQLError::ParseError(pe) => {
            let mut ws: Vec<WireValue> = Vec::new();
            ws.push(encode_parse_error(pe));
            WireValue::Array(ws)
        },
        GraphQLError::ValidationError(errs) => {
            let mut ws: Vec<WireValue> = Vec::new();
            let mut i: usize = 0;
            while i < errs.len()
                invariant
                    e == GraphQLError::ValidationError(*errs),
                    i <= errs@.len(),
                    ws@.len() == i,
                    forall|j: int| 0 <= j < i ==> encodes_rule_error(errs@[j], #[trigger] ws@[j]),
                decreases errs@.len() - i,
            {
                ws.push(encode_rule_error(&errs[i]));
                i = i + 1;
            }
            WireValue::Array(ws)
        },
        GraphQLError::NoOperationProvided => WireValue::Str("Must provide an operation".to_owned()),
        GraphQLError::MultipleOperationsProvided => WireValue::Str(
            "Must provide operation name if query contains multiple operations".to_owned(),
        ),
        GraphQLError::UnknownOperationName => WireValue::Str("Unknown operation".to_owned()),
    }
}

} // verus!
