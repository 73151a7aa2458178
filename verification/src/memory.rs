//! The vector database: its requests, and what is made of its replies.

use vstd::prelude::*;

use crate::http::{is_payload, is_text, HttpRequest, Method, RequestBody, Value};
use crate::json::Json;
use crate::text;

verus! {

// ── Settings ─────────────────────────────────────────────────────────────────

/// The address of the database.
pub const QDRANT_URL: &'static str = "http://localhost:6333";

/// The collection that holds the code.
pub const COLLECTION_NAME: &'static str = "miller_codebase";

/// The dimension of an embedding.
pub const VECTOR_DIMENSION: usize = 384;

/// The time that a request may take, in seconds.
pub const REQUEST_TIMEOUT_SECS: u64 = 10;

// ── Models ───────────────────────────────────────────────────────────────────

/// Structured metadata stored alongside each code vector.
#[derive(Debug)]
pub struct MemoryPayload {
    pub file_path: String,
    pub entity_name: String,
    /// For example `function` or `struct`.
    pub entity_type: String,
    pub content: String,
}

impl Clone for MemoryPayload {
    fn clone(&self) -> (r: Self)
        ensures
            r == *self,
    {
        MemoryPayload {
            file_path: self.file_path.clone(),
            entity_name: self.entity_name.clone(),
            entity_type: self.entity_type.clone(),
            content: self.content.clone(),
        }
    }
}

/// What a payload says.
pub struct Metadata {
    pub file_path: Seq<char>,
    pub entity_name: Seq<char>,
    pub entity_type: Seq<char>,
    pub content: Seq<char>,
}

impl View for MemoryPayload {
    type V = Metadata;

    open spec fn view(&self) -> Metadata {
        Metadata {
            file_path: self.file_path@,
            entity_name: self.entity_name@,
            entity_type: self.entity_type@,
            content: self.content@,
        }
    }
}

/// A search result: the similarity score together with the payload, so that the caller
/// can filter by score.
#[derive(Debug)]
pub struct ScoredChunk {
    /// Cosine similarity, by the bits of its IEEE 754 single; higher is more similar.
    pub score_bits: u32,
    pub payload: MemoryPayload,
}

impl Clone for ScoredChunk {
    fn clone(&self) -> (r: Self)
        ensures
            r == *self,
    {
        ScoredChunk { score_bits: self.score_bits, payload: self.payload.clone() }
    }
}

/// What a search result says.
pub struct Scored {
    pub score_bits: u32,
    pub payload: Metadata,
}

impl View for ScoredChunk {
    type V = Scored;

    open spec fn view(&self) -> Scored {
        Scored { score_bits: self.score_bits, payload: self.payload@ }
    }
}

/// What a sequence of search results says.
pub open spec fn scored_views(chunks: Seq<ScoredChunk>) -> Seq<Scored> {
    Seq::new(chunks.len(), |i: int| chunks[i]@)
}

/// The payload that a JSON object holds: each field must be there, and be a text.
pub open spec fn metadata_in(value: Json) -> Option<Metadata> {
    match (
        value.text_field("file_path"@),
        value.text_field("entity_name"@),
        value.text_field("entity_type"@),
        value.text_field("content"@),
    ) {
        (Some(file_path), Some(entity_name), Some(entity_type), Some(content)) => Some(
            Metadata { file_path, entity_name, entity_type, content },
        ),
        _ => None,
    }
}

/// The first field of a payload that a JSON value does not hold as a text.
pub open spec fn lacking_in(value: Json) -> Option<Seq<char>> {
    if value.text_field("file_path"@) is None {
        Some("file_path"@)
    } else if value.text_field("entity_name"@) is None {
        Some("entity_name"@)
    } else if value.text_field("entity_type"@) is None {
        Some("entity_type"@)
    } else if value.text_field("content"@) is None {
        Some("content"@)
    } else {
        None
    }
}

impl MemoryPayload {
    /// The payload that a JSON object holds: each field must be there, and be a text. Where
    /// one is not, the error names the first such field.
    pub fn from_json(value: &Json) -> (r: Result<Self, &'static str>)
        ensures
            match r {
                Ok(payload) => metadata_in(*value) == Some(payload@) && lacking_in(*value) is None,
                Err(field) => metadata_in(*value) is None && lacking_in(*value) == Some(field@),
            },
    {
        let file_path: &String = match value.get_text("file_path") {
            Some(t) => t,
            None => {
                return Err("file_path");
            },
        };
        let entity_name: &String = match value.get_text("entity_name") {
            Some(t) => t,
            None => {
                return Err("entity_name");
            },
        };
        let entity_type: &String = match value.get_text("entity_type") {
            Some(t) => t,
            None => {
                return Err("entity_type");
            },
        };
        let content: &String = match value.get_text("content") {
            Some(t) => t,
            None => {
                return Err("content");
            },
        };
        Ok(
            MemoryPayload {
                file_path: file_path.clone(),
                entity_name: entity_name.clone(),
                entity_type: entity_type.clone(),
                content: content.clone(),
            },
        )
    }
}

// ── Addresses ────────────────────────────────────────────────────────────────

/// The address of the collection.
pub open spec fn collection_url() -> Seq<char> {
    QDRANT_URL@ + "/collections/"@ + COLLECTION_NAME@
}

/// The address of the collection, followed by `suffix`.
fn url_with(suffix: &str) -> (r: String)
    ensures
        r@ == collection_url() + suffix@,
{
    let mut out: String = QDRANT_URL.to_owned();
    out.append("/collections/");
    out.append(COLLECTION_NAME);
    out.append(suffix);
    out
}

// ── Collection bootstrap ─────────────────────────────────────────────────────

/// The request that asks whether the collection exists.
pub fn check_request() -> (r: HttpRequest)
    ensures
        r.method == Method::Get,
        r.url@ == collection_url(),
        r.body is Empty,
{
    proof {
        reveal_strlit("");
        assert(collection_url() + ""@ =~= collection_url());
    }
    HttpRequest { method: Method::Get, url: url_with(""), body: RequestBody::Empty }
}

/// What to do once the database was asked whether the collection exists.
#[derive(Debug)]
pub enum Bootstrap {
    /// Nothing: the collection is active.
    AlreadyActive,
    /// Send this request, which creates the collection.
    Create(HttpRequest),
}

/// What to do after the check, given whether its reply was a success; none where no reply
/// came. A collection that exists is never created again.
pub fn after_check(reply_success: Option<bool>) -> (r: Bootstrap)
    ensures
        match r {
            Bootstrap::AlreadyActive => reply_success == Some(true),
            Bootstrap::Create(request) => {
                &&& reply_success != Some(true)
                &&& request.method == Method::Put
                &&& request.url@ == collection_url()
                &&& request.body matches RequestBody::CreateCollection { size, distance } && size
                    == VECTOR_DIMENSION && distance@ == "Cosine"@
            },
        },
{
    match reply_success {
        Some(true) => Bootstrap::AlreadyActive,
        _ => {
            proof {
                reveal_strlit("");
                assert(collection_url() + ""@ =~= collection_url());
            }
            Bootstrap::Create(
                HttpRequest {
                    method: Method::Put,
                    url: url_with(""),
                    body: RequestBody::CreateCollection {
                        size: VECTOR_DIMENSION,
                        distance: "Cosine".to_owned(),
                    },
                },
            )
        },
    }
}

/// The outcome of a creation, given whether its reply was a success, and its text.
pub fn creation_outcome(success: bool, reply: &str) -> (r: Result<(), String>)
    ensures
        match r {
            Ok(()) => success,
            Err(e) => !success && e@ == "Failed to create collection: "@ + reply@,
        },
{
    if success {
        Ok(())
    } else {
        let mut out: String = "Failed to create collection: ".to_owned();
        out.append(reply);
        Err(out)
    }
}

// ── Insertion ────────────────────────────────────────────────────────────────

/// The request that inserts or overwrites one code chunk. `id` identifies the point;
/// callers are responsible for its uniqueness within the collection.
pub fn upsert_request(id: u64, vector: Vec<u64>, payload: MemoryPayload) -> (r: HttpRequest)
    ensures
        r.method == Method::Put,
        r.url@ == collection_url() + "/points"@,
        r.body == (RequestBody::UpsertPoint { id, vector, payload }),
{
    HttpRequest {
        method: Method::Put,
        url: url_with("/points"),
        body: RequestBody::UpsertPoint { id, vector, payload },
    }
}

/// The outcome of an insertion, given whether its reply was a success, and its text.
pub fn upsert_outcome(id: u64, success: bool, reply: &str) -> (r: Result<(), String>)
    ensures
        match r {
            Ok(()) => success,
            Err(e) => !success && e@ == "Failed to upsert point "@ + text::decimal(id as nat)
                + ": "@ + reply@,
        },
{
    if success {
        Ok(())
    } else {
        let mut out: String = "Failed to upsert point ".to_owned();
        out.append(text::decimal_of(id as u128).as_str());
        out.append(": ");
        out.append(reply);
        Err(out)
    }
}

// ── Search ───────────────────────────────────────────────────────────────────

/// The request that searches for the `limit` nearest code chunks.
pub fn search_request(vector: Vec<u64>, limit: usize) -> (r: HttpRequest)
    ensures
        r.method == Method::Post,
        r.url@ == collection_url() + "/points/search"@,
        r.body == (RequestBody::SearchPoints { vector, limit, with_payload: true }),
{
    HttpRequest {
        method: Method::Post,
        url: url_with("/points/search"),
        body: RequestBody::SearchPoints { vector, limit, with_payload: true },
    }
}

/// The report of a search that the database refused.
pub fn search_failure(reply: &str) -> (r: String)
    ensures
        r@ == "Search failed: "@ + reply@,
{
    let mut out: String = "Search failed: ".to_owned();
    out.append(reply);
    out
}

/// The score of a hit; zero where it has none.
pub open spec fn score_in(hit: Json) -> u32 {
    match hit.field("score"@) {
        Some(Json::Number { single, .. }) => single,
        _ => 0,
    }
}

/// The search result that a hit holds. A hit whose payload is no object, or not the
/// payload of a code chunk, holds none.
pub open spec fn scored_in(hit: Json) -> Option<Scored> {
    match hit.field("payload"@) {
        Some(payload) => match (payload, metadata_in(payload)) {
            (Json::Fields(_), Some(metadata)) => Some(
                Scored { score_bits: score_in(hit), payload: metadata },
            ),
            _ => None,
        },
        None => None,
    }
}

/// What the payload of a hit lacks, where it is an object, but not the payload of a code
/// chunk.
pub open spec fn malformed(hit: Json) -> Option<Seq<char>> {
    match hit.field("payload"@) {
        Some(Json::Fields(fields)) => lacking_in(Json::Fields(fields)),
        _ => None,
    }
}

/// The search results that the hits hold, in order.
pub open spec fn all_scored(hits: Seq<Json>) -> Seq<Scored>
    decreases hits.len(),
{
    if hits.len() == 0 {
        Seq::empty()
    } else {
        let before = all_scored(hits.drop_last());
        match scored_in(hits.last()) {
            Some(scored) => before.push(scored),
            None => before,
        }
    }
}

/// What the malformed payloads of the hits lack, in order.
pub open spec fn all_malformed(hits: Seq<Json>) -> Seq<Seq<char>>
    decreases hits.len(),
{
    if hits.len() == 0 {
        Seq::empty()
    } else {
        let before = all_malformed(hits.drop_last());
        match malformed(hits.last()) {
            Some(field) => before.push(field),
            None => before,
        }
    }
}

/// The hits of a reply to a search.
pub open spec fn hits_in(reply: Json) -> Seq<Json> {
    match reply.list_field("result"@) {
        Some(hits) => hits,
        None => Seq::empty(),
    }
}

/// What a reply to a search amounts to.
#[derive(Debug)]
pub struct SearchResults {
    /// The results, in the order of the reply.
    pub chunks: Vec<ScoredChunk>,
    /// For each hit that was skipped for a malformed payload, in order, the field that it
    /// lacks.
    pub skipped: Vec<&'static str>,
}

/// Reads the results out of a reply to a search. A hit without a score counts as scored
/// zero, so that a score threshold discards it.
pub fn search_results(reply: &Json) -> (r: SearchResults)
    ensures
        scored_views(r.chunks@) == all_scored(hits_in(*reply)),
        text::slice_texts(r.skipped@) == all_malformed(hits_in(*reply)),
{
    let mut chunks: Vec<ScoredChunk> = Vec::new();
    let mut skipped: Vec<&'static str> = Vec::new();
    assert(scored_views(chunks@) =~= Seq::empty());
    assert(text::slice_texts(skipped@) =~= Seq::empty());
    let hits: &Vec<Json> = match reply.get_list("result") {
        Some(hits) => hits,
        None => {
            return SearchResults { chunks, skipped };
        },
    };
    let mut i: usize = 0;
    assert(hits@.take(0) =~= Seq::empty());
    while i < hits.len()
        invariant
            i <= hits@.len(),
            hits@ == hits_in(*reply),
            scored_views(chunks@) == all_scored(hits@.take(i as int)),
            text::slice_texts(skipped@) == all_malformed(hits@.take(i as int)),
        decreases hits@.len() - i,
    {
        let hit: &Json = &hits[i];
        let ghost before = scored_views(chunks@);
        let ghost lacking = text::slice_texts(skipped@);
        proof {
            assert(hits@.take(i + 1).drop_last() =~= hits@.take(i as int));
            assert(hits@.take(i + 1).last() == *hit);
        }
        let score_bits: u32 = match hit.get("score") {
            Some(Json::Number { double, single }) => *single,
            _ => 0,
        };
        match hit.get("payload") {
            Some(payload) => match payload {
                Json::Fields(fields) => match MemoryPayload::from_json(payload) {
                    Ok(p) => {
                        chunks.push(ScoredChunk { score_bits, payload: p });
                        assert(scored_views(chunks@) =~= before.push(chunks@.last()@));
                    },
                    Err(field) => {
                        skipped.push(field);
                        assert(text::slice_texts(skipped@) =~= lacking.push(field@));
                    },
                },
                _ => {},
            },
            None => {},
        }
        i = i + 1;
    }
    assert(hits@.take(i as int) =~= hits@);
    SearchResults { chunks, skipped }
}

// ── Laws ─────────────────────────────────────────────────────────────────────

/// Whether each field that was sent is found again, with its text, in what is read, in
/// whatever order it stands there and whatever stands beside it.
pub open spec fn holds_texts_of(sent: Value, read: Json) -> bool {
    sent matches Value::Fields(fields) && forall|i: int|
        0 <= i < fields@.len() ==> (read.text_field((#[trigger] fields@[i]).0@) matches Some(t)
            && is_text(fields@[i].1, t))
}

/// A payload that comes back with what was sent is the payload that was sent.
pub proof fn law_payload_reads_back(sent: Value, read: Json, m: Metadata)
    requires
        is_payload(sent, m),
        holds_texts_of(sent, read),
    ensures
        metadata_in(read) == Some(m),
{
    let fields = sent->Fields_0@;
    assert(fields[0].0@ == "file_path"@ && fields[1].0@ == "entity_name"@);
    assert(fields[2].0@ == "entity_type"@ && fields[3].0@ == "content"@);
}

/// A search gives no more results than the reply has hits, and none for a hit that is
/// skipped.
pub proof fn law_no_more_results_than_hits(hits: Seq<Json>)
    ensures
        all_scored(hits).len() + all_malformed(hits).len() <= hits.len(),
    decreases hits.len(),
{
    if hits.len() > 0 {
        law_no_more_results_than_hits(hits.drop_last());
    }
}

/// The collection has one address, which all requests begin with.
pub proof fn law_collection_has_its_address()
    ensures
        collection_url() == "http://localhost:6333/collections/miller_codebase"@,
{
    reveal_strlit("http://localhost:6333");
    reveal_strlit("/collections/");
    reveal_strlit("miller_codebase");
    reveal_strlit("http://localhost:6333/collections/miller_codebase");
    assert(collection_url() =~= "http://localhost:6333/collections/miller_codebase"@);
}

/// A payload is read exactly where each of its four fields is there and is a text; and where
/// one is not, the first such field is named.
pub proof fn law_payload_needs_all_its_fields(value: Json)
    ensures
        ({
            let path = value.text_field("file_path"@);
            let name = value.text_field("entity_name"@);
            let kind = value.text_field("entity_type"@);
            let content = value.text_field("content"@);
            &&& metadata_in(value) is Some <==> path is Some && name is Some && kind is Some
                && content is Some
            &&& metadata_in(value) matches Some(m) ==> path == Some(m.file_path) && name == Some(
                m.entity_name,
            ) && kind == Some(m.entity_type) && content == Some(m.content)
            &&& lacking_in(value) is None <==> metadata_in(value) is Some
            &&& path is None ==> lacking_in(value) == Some("file_path"@)
            &&& path is Some && name is None ==> lacking_in(value) == Some("entity_name"@)
            &&& path is Some && name is Some && kind is None ==> lacking_in(value) == Some(
                "entity_type"@,
            )
            &&& path is Some && name is Some && kind is Some && content is None ==> lacking_in(
                value,
            ) == Some("content"@)
        }),
{
}

/// A hit is read with its score, or with zero where it has none, and with its payload, where
/// that is an object with all that a payload needs; any other hit gives no result, and is
/// told of where its payload is an object.
pub proof fn law_hit_is_read(hit: Json)
    ensures
        ({
            let p = hit.field("payload"@);
            let object = p is Some && p->0 is Fields;
            &&& scored_in(hit) is Some <==> object && metadata_in(p->0) is Some
            &&& scored_in(hit) matches Some(s) ==> Some(s.payload) == metadata_in(p->0)
            &&& scored_in(hit) matches Some(s) ==> (hit.field("score"@) matches Some(
                Json::Number { double, single },
            ) ==> s.score_bits == single)
            &&& scored_in(hit) matches Some(s) ==> !(hit.field("score"@) is Some && hit.field(
                "score"@,
            )->0 is Number) ==> s.score_bits == 0
            &&& malformed(hit) is Some <==> object && metadata_in(p->0) is None
            &&& object ==> malformed(hit) == lacking_in(p->0)
        }),
{
}

/// The results of a search are those of its hits, all of them and in their order: a further
/// hit adds its result at the end, or is told of, and changes nothing else.
pub proof fn law_results_follow_the_hits(hits: Seq<Json>, hit: Json)
    ensures
        all_scored(Seq::empty()) == Seq::<Scored>::empty(),
        all_scored(hits.push(hit)) == match scored_in(hit) {
            Some(scored) => all_scored(hits).push(scored),
            None => all_scored(hits),
        },
        all_malformed(Seq::empty()) == Seq::<Seq<char>>::empty(),
        all_malformed(hits.push(hit)) == match malformed(hit) {
            Some(field) => all_malformed(hits).push(field),
            None => all_malformed(hits),
        },
{
    assert(hits.push(hit).drop_last() =~= hits);
}

/// The hits of a reply are the items of its list of results; another reply has none.
pub proof fn law_hits_are_the_results(reply: Json)
    ensures
        reply.field("result"@) matches Some(Json::List(items)) ==> hits_in(reply) == items@,
        !(reply.field("result"@) is Some && reply.field("result"@)->0 is List) ==> hits_in(
            reply,
        ).len() == 0,
{
}

/// What is said of results is what they hold, one for one.
pub proof fn law_results_are_read_as_they_are(chunks: Seq<ScoredChunk>, i: int)
    requires
        0 <= i < chunks.len(),
    ensures
        ({
            let s = scored_views(chunks)[i];
            &&& scored_views(chunks).len() == chunks.len()
            &&& s.score_bits == chunks[i].score_bits
            &&& s.payload.file_path == chunks[i].payload.file_path@
            &&& s.payload.entity_name == chunks[i].payload.entity_name@
            &&& s.payload.entity_type == chunks[i].payload.entity_type@
            &&& s.payload.content == chunks[i].payload.content@
        }),
{
}

} // verus!
