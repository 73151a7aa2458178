//! The requests that are sent to the model server and to the vector database.

use vstd::prelude::*;

use crate::memory::{MemoryPayload, Metadata};

verus! {

/// The method of a request.
#[derive(Debug, Clone, Copy, PartialEq, Eq, Structural)]
pub enum Method {
    Get,
    Put,
    Post,
}

/// The body of a request. The components of a vector are given by the bits of their
/// IEEE 754 doubles.
#[derive(Debug)]
pub enum RequestBody {
    /// No body.
    Empty,
    /// The creation of a collection of vectors.
    CreateCollection { size: usize, distance: String },
    /// The insertion of one point.
    UpsertPoint { id: u64, vector: Vec<u64>, payload: MemoryPayload },
    /// The search for the nearest points.
    SearchPoints { vector: Vec<u64>, limit: usize, with_payload: bool },
    /// The embedding of a text.
    Embed { model: String, prompt: String },
    /// The generation of a text.
    Generate { model: String, prompt: String, stream: bool },
}

/// A request.
#[derive(Debug)]
pub struct HttpRequest {
    pub method: Method,
    pub url: String,
    pub body: RequestBody,
}

// ── Layout of bodies ─────────────────────────────────────────────────────────

/// A JSON value that is sent.
#[derive(Debug)]
pub enum Value {
    Bool(bool),
    Integer(u64),
    /// A number, by the bits of its IEEE 754 double.
    Double(u64),
    Text(String),
    List(Vec<Value>),
    /// The fields of an object, in order.
    Fields(Vec<(String, Value)>),
}

/// Whether a value is an object with the fields `keys`, in this order.
pub open spec fn is_object(value: Value, keys: Seq<Seq<char>>) -> bool {
    value matches Value::Fields(fields) && fields@.len() == keys.len() && forall|i: int|
        0 <= i < keys.len() ==> (#[trigger] fields@[i]).0@ == keys[i]
}

/// The value of field `i` of an object.
pub open spec fn member(value: Value, i: int) -> Value {
    value->Fields_0@[i].1
}

/// Whether a value is this text.
pub open spec fn is_text(value: Value, s: Seq<char>) -> bool {
    value matches Value::Text(t) && t@ == s
}

/// Whether a value is the list of the numbers with these bits.
pub open spec fn is_vector(value: Value, bits: Seq<u64>) -> bool {
    value matches Value::List(items) && items@.len() == bits.len() && forall|i: int|
        0 <= i < bits.len() ==> #[trigger] items@[i] == Value::Double(bits[i])
}

/// Whether a value is the object of a payload.
pub open spec fn is_payload(value: Value, m: Metadata) -> bool {
    &&& is_object(value, seq!["file_path"@, "entity_name"@, "entity_type"@, "content"@])
    &&& is_text(member(value, 0), m.file_path)
    &&& is_text(member(value, 1), m.entity_name)
    &&& is_text(member(value, 2), m.entity_type)
    &&& is_text(member(value, 3), m.content)
}

/// Whether a value is the object that inserts one point.
pub open spec fn is_point(value: Value, id: u64, vector: Seq<u64>, payload: Metadata) -> bool {
    &&& is_object(value, seq!["id"@, "vector"@, "payload"@])
    &&& member(value, 0) == Value::Integer(id)
    &&& is_vector(member(value, 1), vector)
    &&& is_payload(member(value, 2), payload)
}

/// Whether a value is how a body is sent. One without content is not sent at all.
pub open spec fn is_layout(body: RequestBody, sent: Option<Value>) -> bool {
    match (body, sent) {
        (RequestBody::Empty, None) => true,
        (RequestBody::CreateCollection { size, distance }, Some(value)) => {
            &&& is_object(value, seq!["vectors"@])
            &&& is_object(member(value, 0), seq!["size"@, "distance"@])
            &&& member(member(value, 0), 0) == Value::Integer(size as u64)
            &&& is_text(member(member(value, 0), 1), distance@)
        },
        (RequestBody::UpsertPoint { id, vector, payload }, Some(value)) => {
            &&& is_object(value, seq!["points"@])
            &&& member(value, 0) matches Value::List(points)
            &&& points@.len() == 1
            &&& is_point(points@[0], id, vector@, payload@)
        },
        (RequestBody::SearchPoints { vector, limit, with_payload }, Some(value)) => {
            &&& is_object(value, seq!["vector"@, "limit"@, "with_payload"@])
            &&& is_vector(member(value, 0), vector@)
            &&& member(value, 1) == Value::Integer(limit as u64)
            &&& member(value, 2) == Value::Bool(with_payload)
        },
        (RequestBody::Embed { model, prompt }, Some(value)) => {
            &&& is_object(value, seq!["model"@, "prompt"@])
            &&& is_text(member(value, 0), model@)
            &&& is_text(member(value, 1), prompt@)
        },
        (RequestBody::Generate { model, prompt, stream }, Some(value)) => {
            &&& is_object(value, seq!["model"@, "prompt"@, "stream"@])
            &&& is_text(member(value, 0), model@)
            &&& is_text(member(value, 1), prompt@)
            &&& member(value, 2) == Value::Bool(stream)
        },
        _ => false,
    }
}

/// The list of the numbers with these bits.
fn vector_value(bits: &Vec<u64>) -> (r: Value)
    ensures
        is_vector(r, bits@),
{
    let mut items: Vec<Value> = Vec::new();
    let mut i: usize = 0;
    while i < bits.len()
        invariant
            i <= bits@.len(),
            items@.len() == i,
            forall|k: int| 0 <= k < i ==> #[trigger] items@[k] == Value::Double(bits@[k]),
        decreases bits@.len() - i,
    {
        items.push(Value::Double(bits[i]));
        i = i + 1;
    }
    Value::List(items)
}

/// The object of a payload.
fn payload_value(payload: &MemoryPayload) -> (r: Value)
    ensures
        is_payload(r, payload@),
{
    Value::Fields(
        vec![
            ("file_path".to_owned(), Value::Text(payload.file_path.clone())),
            ("entity_name".to_owned(), Value::Text(payload.entity_name.clone())),
            ("entity_type".to_owned(), Value::Text(payload.entity_type.clone())),
            ("content".to_owned(), Value::Text(payload.content.clone())),
        ],
    )
}

impl RequestBody {
    /// How the body is sent; none where it is not sent at all.
    pub fn layout(&self) -> (r: Option<Value>)
        ensures
            is_layout(*self, r),
    {
        match self {
            RequestBody::Empty => None,
            RequestBody::CreateCollection { size, distance } => {
                let vectors: Value = Value::Fields(
                    vec![
                        ("size".to_owned(), Value::Integer(*size as u64)),
                        ("distance".to_owned(), Value::Text(distance.clone())),
                    ],
                );
                Some(Value::Fields(vec![("vectors".to_owned(), vectors)]))
            },
            RequestBody::UpsertPoint { id, vector, payload } => {
                let point: Value = Value::Fields(
                    vec![
                        ("id".to_owned(), Value::Integer(*id)),
                        ("vector".to_owned(), vector_value(vector)),
                        ("payload".to_owned(), payload_value(payload)),
                    ],
                );
                Some(Value::Fields(vec![("points".to_owned(), Value::List(vec![point]))]))
            },
            RequestBody::SearchPoints { vector, limit, with_payload } => Some(
                Value::Fields(
                    vec![
                        ("vector".to_owned(), vector_value(vector)),
                        ("limit".to_owned(), Value::Integer(*limit as u64)),
                        ("with_payload".to_owned(), Value::Bool(*with_payload)),
                    ],
                ),
            ),
            RequestBody::Embed { model, prompt } => Some(
                Value::Fields(
                    vec![
                        ("model".to_owned(), Value::Text(model.clone())),
                        ("prompt".to_owned(), Value::Text(prompt.clone())),
                    ],
                ),
            ),
            RequestBody::Generate { model, prompt, stream } => Some(
                Value::Fields(
                    vec![
                        ("model".to_owned(), Value::Text(model.clone())),
                        ("prompt".to_owned(), Value::Text(prompt.clone())),
                        ("stream".to_owned(), Value::Bool(*stream)),
                    ],
                ),
            ),
        }
    }
}

// ── Laws ─────────────────────────────────────────────────────────────────────

/// A vector is sent in full, component by component and bit by bit.
pub proof fn law_vectors_are_sent_in_full(value: Value, bits: Seq<u64>, i: int)
    requires
        is_vector(value, bits),
    ensures
        value matches Value::List(items) && items@.len() == bits.len() && (0 <= i < bits.len()
            ==> items@[i] == Value::Double(bits[i])),
{
}

/// The object of a payload has its four fields and no other, each under its name and with its
/// text.
pub proof fn law_payload_is_sent_in_full(value: Value, m: Metadata)
    requires
        is_payload(value, m),
    ensures
        ({
            let f = value->Fields_0@;
            &&& value is Fields
            &&& f.len() == 4
            &&& f[0].0@ == "file_path"@ && (f[0].1 matches Value::Text(t) && t@ == m.file_path)
            &&& f[1].0@ == "entity_name"@ && (f[1].1 matches Value::Text(t) && t@ == m.entity_name)
            &&& f[2].0@ == "entity_type"@ && (f[2].1 matches Value::Text(t) && t@ == m.entity_type)
            &&& f[3].0@ == "content"@ && (f[3].1 matches Value::Text(t) && t@ == m.content)
        }),
{
}

/// A point is sent with its identifier, its vector and its payload, alone in its request.
pub proof fn law_point_is_sent_in_full(
    id: u64,
    vector: Vec<u64>,
    payload: MemoryPayload,
    value: Value,
)
    requires
        is_layout(RequestBody::UpsertPoint { id, vector, payload }, Some(value)),
    ensures
        ({
            let f = value->Fields_0@;
            let points = f[0].1->List_0@;
            let p = points[0]->Fields_0@;
            &&& value is Fields
            &&& f.len() == 1
            &&& f[0].0@ == "points"@
            &&& f[0].1 is List
            &&& points.len() == 1
            &&& points[0] is Fields
            &&& p.len() == 3
            &&& p[0].0@ == "id"@ && p[0].1 == Value::Integer(id)
            &&& p[1].0@ == "vector"@ && is_vector(p[1].1, vector@)
            &&& p[2].0@ == "payload"@ && is_payload(p[2].1, payload@)
        }),
{
}

/// Every other request is sent with what it holds, under the names that the server reads.
pub proof fn law_requests_are_sent_in_full(body: RequestBody, value: Value)
    requires
        is_layout(body, Some(value)),
    ensures
        ({
            let f = value->Fields_0@;
            &&& body matches RequestBody::CreateCollection { size, distance } ==> {
                let v = f[0].1->Fields_0@;
                &&& f.len() == 1 && f[0].0@ == "vectors"@ && f[0].1 is Fields
                &&& v.len() == 2
                &&& v[0].0@ == "size"@ && v[0].1 == Value::Integer(size as u64)
                &&& v[1].0@ == "distance"@ && (v[1].1 matches Value::Text(t) && t@ == distance@)
            }
            &&& body matches RequestBody::SearchPoints { vector, limit, with_payload } ==> {
                &&& f.len() == 3
                &&& f[0].0@ == "vector"@ && is_vector(f[0].1, vector@)
                &&& f[1].0@ == "limit"@ && f[1].1 == Value::Integer(limit as u64)
                &&& f[2].0@ == "with_payload"@ && f[2].1 == Value::Bool(with_payload)
            }
            &&& body matches RequestBody::Embed { model, prompt } ==> {
                &&& f.len() == 2
                &&& f[0].0@ == "model"@ && (f[0].1 matches Value::Text(t) && t@ == model@)
                &&& f[1].0@ == "prompt"@ && (f[1].1 matches Value::Text(t) && t@ == prompt@)
            }
            &&& body matches RequestBody::Generate { model, prompt, stream } ==> {
                &&& f.len() == 3
                &&& f[0].0@ == "model"@ && (f[0].1 matches Value::Text(t) && t@ == model@)
                &&& f[1].0@ == "prompt"@ && (f[1].1 matches Value::Text(t) && t@ == prompt@)
                &&& f[2].0@ == "stream"@ && f[2].1 == Value::Bool(stream)
            }
        }),
        !(body is Empty),
{
}

/// A body is sent exactly where it has content.
pub proof fn law_only_empty_bodies_are_not_sent(body: RequestBody, sent: Option<Value>)
    requires
        is_layout(body, sent),
    ensures
        sent is None <==> body is Empty,
{
}

} // verus!
