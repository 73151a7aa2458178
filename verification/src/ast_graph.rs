//! The functions and structs of a source file, and which functions call which.

use tree_sitter::{Parser, Query, QueryCursor};
use vstd::prelude::*;
use vstd::utf8::{encode_utf8, encode_utf8_valid_utf8, valid_utf8};

use crate::text;

verus! {

/// A function or a struct of a source file.
#[derive(Debug)]
pub struct CodeNode {
    pub file_path: String,
    pub entity_name: String,
    /// `struct` or `function`.
    pub entity_type: String,
    pub content: String,
    /// The functions that a function calls by name, each once.
    pub dependencies: Vec<String>,
}

impl Clone for CodeNode {
    fn clone(&self) -> (r: Self)
        ensures
            r@ == self@,
    {
        let dependencies: Vec<String> = text::copies(&self.dependencies);
        CodeNode {
            file_path: self.file_path.clone(),
            entity_name: self.entity_name.clone(),
            entity_type: self.entity_type.clone(),
            content: self.content.clone(),
            dependencies,
        }
    }
}

/// What a node says.
pub struct Entity {
    pub file_path: Seq<char>,
    pub entity_name: Seq<char>,
    pub entity_type: Seq<char>,
    pub content: Seq<char>,
    pub dependencies: Seq<Seq<char>>,
}

impl View for CodeNode {
    type V = Entity;

    open spec fn view(&self) -> Entity {
        Entity {
            file_path: self.file_path@,
            entity_name: self.entity_name@,
            entity_type: self.entity_type@,
            content: self.content@,
            dependencies: text::texts(self.dependencies@),
        }
    }
}

/// What a sequence of nodes says.
pub open spec fn entities(nodes: Seq<CodeNode>) -> Seq<Entity> {
    Seq::new(nodes.len(), |i: int| nodes[i]@)
}

// ── Queries ──────────────────────────────────────────────────────────────────

/// The query for functions and structs.
pub const ENTITY_QUERY: &'static str =
    "\n        (function_item name: (identifier) @fn.name) @fn.body\n        (struct_item name: (type_identifier) @struct.name) @struct.body\n    ";

/// The query for calls of functions by name.
pub const CALL_QUERY: &'static str = "(call_expression function: (identifier) @call.name)";

/// A syntax node that a query has captured.
#[derive(Debug)]
pub struct Capture {
    /// The name of the capture in the query.
    pub name: String,
    /// The source text of the node; none where it is no UTF-8.
    pub text: Option<String>,
}

/// What a capture says: its name and its text.
pub type Captured = (Seq<char>, Option<Seq<char>>);

/// What the captures of a match say.
pub open spec fn captured_match(m: Seq<Capture>) -> Seq<Captured> {
    Seq::new(m.len(), |i: int| (m[i].name@, text::optional_text(m[i].text)))
}

/// What the captures of all matches say.
pub open spec fn captured_matches(ms: Seq<Vec<Capture>>) -> Seq<Seq<Captured>> {
    Seq::new(ms.len(), |i: int| captured_match(ms[i]@))
}

/// The source texts of some captures.
pub open spec fn captured_texts(m: Seq<Option<String>>) -> Seq<Option<Seq<char>>> {
    Seq::new(m.len(), |i: int| text::optional_text(m[i]))
}

/// The source texts of the captures of each match under a capture.
pub open spec fn captured_under(ms: Seq<Vec<Option<String>>>) -> Seq<Seq<Option<Seq<char>>>> {
    Seq::new(ms.len(), |i: int| captured_texts(ms[i]@))
}

/// The source texts that are captured under each capture of a match.
pub open spec fn match_calls(m: Seq<Vec<Vec<Option<String>>>>) -> Seq<
    Seq<Seq<Option<Seq<char>>>>,
> {
    Seq::new(m.len(), |i: int| captured_under(m[i]@))
}

/// The source texts that are captured under each capture of each match.
pub open spec fn all_calls(ms: Seq<Vec<Vec<Vec<Option<String>>>>>) -> Seq<
    Seq<Seq<Seq<Option<Seq<char>>>>>,
> {
    Seq::new(ms.len(), |i: int| match_calls(ms[i]@))
}

/// The matches of a query in the syntax tree of a Rust source text, in order, each with
/// the names and the source texts of its captures, in order; none where no tree or no
/// query comes about.
pub uninterp spec fn syntax_matches(query: Seq<char>, source: Seq<u8>) -> Option<
    Seq<Seq<(Seq<char>, Option<Seq<char>>)>>,
>;

/// The matches of the query `inner`, in order, under each node that `query` captures, each
/// with the source texts of its captures; none where no tree or no query comes about.
pub uninterp spec fn syntax_under(
    query: Seq<char>,
    inner: Seq<char>,
    source: Seq<u8>,
) -> Option<Seq<Seq<Seq<Seq<Option<Seq<char>>>>>>>;

/// `tree_sitter::QueryCursor::matches` on the root of the tree that
/// `tree_sitter::Parser::parse` makes of `source` by the grammar of
/// `tree_sitter_rust::language`. What is captured is left to the name `syntax_matches`.
/// The parser counts bytes in 32 bits.
#[verifier::external_body]
fn matches_in(query: &str, source: &[u8]) -> (r: Option<Vec<Vec<Capture>>>)
    requires
        query@ == ENTITY_QUERY@,
        valid_utf8(source@),
        source@.len() <= u32::MAX,
    ensures
        match r {
            Some(ms) => syntax_matches(query@, source@) == Some(captured_matches(ms@)),
            None => syntax_matches(query@, source@) is None,
        },
{
    let mut parser = Parser::new();
    parser.set_language(tree_sitter_rust::language()).ok()?;
    let tree = parser.parse(source, None)?;
    let query = Query::new(tree.language(), query).ok()?;
    Some(QueryCursor::new().matches(&query, tree.root_node(), source).map(|m| m.captures
        .iter().map(|c| Capture {
            name: query.capture_names()[c.index as usize].clone(),
            text: c.node.utf8_text(source).ok().map(String::from),
        }).collect()).collect())
}

/// `tree_sitter::QueryCursor::matches` with `inner` on each node that it captures with
/// `query` on the root of the tree that `tree_sitter::Parser::parse` makes of `source` by
/// the grammar of `tree_sitter_rust::language`. What is captured is left to the name
/// `syntax_under`. The parser counts bytes in 32 bits.
#[verifier::external_body]
fn matches_under(query: &str, inner: &str, source: &[u8]) -> (r: Option<
    Vec<Vec<Vec<Vec<Option<String>>>>>,
>)
    requires
        query@ == ENTITY_QUERY@,
        inner@ == CALL_QUERY@,
        valid_utf8(source@),
        source@.len() <= u32::MAX,
    ensures
        match r {
            Some(ms) => syntax_under(query@, inner@, source@) == Some(all_calls(ms@)),
            None => syntax_under(query@, inner@, source@) is None,
        },
{
    let mut parser = Parser::new();
    parser.set_language(tree_sitter_rust::language()).ok()?;
    let tree = parser.parse(source, None)?;
    let query = Query::new(tree.language(), query).ok()?;
    let inner = Query::new(tree.language(), inner).ok()?;
    Some(QueryCursor::new().matches(&query, tree.root_node(), source).map(|m| m.captures
        .iter().map(|c| QueryCursor::new().matches(&inner, c.node, source).map(|m| m.captures
            .iter().map(|c| c.node.utf8_text(source).ok().map(String::from))
            .collect()).collect()).collect()).collect())
}

// ── Nodes ────────────────────────────────────────────────────────────────────

/// The text of a capture; empty where it is no UTF-8.
pub open spec fn text_or_empty(t: Option<Seq<char>>) -> Seq<char> {
    match t {
        Some(s) => s,
        None => Seq::empty(),
    }
}

/// What is known of an entity while its captures are read.
pub struct Draft {
    pub name: Seq<char>,
    pub kind: Seq<char>,
    pub content: Seq<char>,
    /// Which capture is the whole of the entity.
    pub target: Option<int>,
}

/// What the first `n` captures of a match tell of an entity.
pub open spec fn draft_of(captures: Seq<Captured>, n: int) -> Draft
    decreases n,
{
    if n <= 0 {
        Draft { name: Seq::empty(), kind: "unknown"@, content: Seq::empty(), target: None }
    } else {
        let d = draft_of(captures, n - 1);
        let (name, t) = captures[n - 1];
        if name == "fn.name"@ {
            Draft { name: text_or_empty(t), kind: "function"@, ..d }
        } else if name == "struct.name"@ {
            Draft { name: text_or_empty(t), kind: "struct"@, ..d }
        } else if name == "fn.body"@ || name == "struct.body"@ {
            Draft { content: text_or_empty(t), target: Some(n - 1), ..d }
        } else {
            d
        }
    }
}

/// The parts of `parts`, one after the other.
pub open spec fn flat<T>(parts: Seq<Seq<T>>) -> Seq<T>
    decreases parts.len(),
{
    if parts.len() == 0 {
        Seq::empty()
    } else {
        flat(parts.drop_last()) + parts.last()
    }
}

/// The texts of `calls`, each once, in the order in which they first stand there.
pub open spec fn distinct(calls: Seq<Option<Seq<char>>>) -> Seq<Seq<char>>
    decreases calls.len(),
{
    if calls.len() == 0 {
        Seq::empty()
    } else {
        let before = distinct(calls.drop_last());
        let t = text_or_empty(calls.last());
        if before.contains(t) {
            before
        } else {
            before.push(t)
        }
    }
}

/// The `i`-th of `xs`; empty where there is none.
pub open spec fn nth_or_empty<T>(xs: Seq<Seq<T>>, i: int) -> Seq<T> {
    if i < xs.len() {
        xs[i]
    } else {
        Seq::empty()
    }
}

/// The entity that the captures of a match describe, where `calls` are the texts that are
/// captured under each of them. Only a function has dependencies: what it calls.
pub open spec fn entity_of(
    file_path: Seq<char>,
    captures: Seq<Captured>,
    calls: Seq<Seq<Seq<Option<Seq<char>>>>>,
) -> Entity {
    let d = draft_of(captures, captures.len() as int);
    Entity {
        file_path,
        entity_name: d.name,
        entity_type: d.kind,
        content: d.content,
        dependencies: match d.target {
            Some(t) if d.kind == "function"@ => distinct(flat(nth_or_empty(calls, t))),
            _ => Seq::empty(),
        },
    }
}

/// The entities that matches describe.
pub open spec fn entities_of(
    file_path: Seq<char>,
    matches: Seq<Seq<Captured>>,
    calls: Seq<Seq<Seq<Seq<Option<Seq<char>>>>>>,
) -> Seq<Entity> {
    Seq::new(
        matches.len(),
        |i: int| entity_of(file_path, matches[i], nth_or_empty(calls, i)),
    )
}

/// The text of a capture; empty where it is no UTF-8.
fn owned_or_empty(t: &Option<String>) -> (r: String)
    ensures
        r@ == text_or_empty(text::optional_text(*t)),
{
    match t {
        Some(s) => s.clone(),
        None => String::new(),
    }
}

/// Whether `names` holds `name`.
fn holds(names: &Vec<String>, name: &str) -> (r: bool)
    ensures
        r == text::texts(names@).contains(name@),
{
    let mut i: usize = 0;
    while i < names.len()
        invariant
            i <= names@.len(),
            forall|k: int| 0 <= k < i ==> (#[trigger] names@[k])@ != name@,
        decreases names@.len() - i,
    {
        if text::same_text(names[i].as_str(), name) {
            assert(text::texts(names@)[i as int] == name@);
            return true;
        }
        i = i + 1;
    }
    assert forall|k: int| 0 <= k < names@.len() implies #[trigger] text::texts(names@)[k]
        != name@ by {
        assert(names@[k]@ != name@);
    }
    false
}

/// The texts of `calls`, each once, in the order in which they first stand there.
pub fn distinct_texts(calls: &Vec<Option<String>>) -> (r: Vec<String>)
    ensures
        text::texts(r@) == distinct(captured_texts(calls@)),
{
    let ghost all = captured_texts(calls@);
    let mut out: Vec<String> = Vec::new();
    let mut i: usize = 0;
    assert(all.take(0) =~= Seq::empty());
    assert(text::texts(out@) =~= Seq::empty());
    while i < calls.len()
        invariant
            i <= calls@.len(),
            all == captured_texts(calls@),
            text::texts(out@) == distinct(all.take(i as int)),
        decreases calls@.len() - i,
    {
        let t: String = owned_or_empty(&calls[i]);
        let ghost before = text::texts(out@);
        assert(all.take(i + 1).drop_last() =~= all.take(i as int));
        if !holds(&out, t.as_str()) {
            out.push(t);
            assert(text::texts(out@) =~= before.push(t@));
        }
        i = i + 1;
    }
    assert(all.take(i as int) =~= all);
    out
}

/// The texts of the captures of some matches, one after the other.
fn flat_texts(matches: &Vec<Vec<Option<String>>>) -> (r: Vec<Option<String>>)
    ensures
        captured_texts(r@) == flat(captured_under(matches@)),
{
    let ghost all = captured_under(matches@);
    let mut out: Vec<Option<String>> = Vec::new();
    let mut i: usize = 0;
    assert(all.take(0) =~= Seq::empty());
    assert(captured_texts(out@) =~= Seq::empty());
    while i < matches.len()
        invariant
            i <= matches@.len(),
            all == captured_under(matches@),
            captured_texts(out@) == flat(all.take(i as int)),
        decreases matches@.len() - i,
    {
        let found: &Vec<Option<String>> = &matches[i];
        let ghost before = captured_texts(out@);
        let ghost part = captured_texts(found@);
        let mut k: usize = 0;
        assert(before + part.take(0) =~= before);
        while k < found.len()
            invariant
                k <= found@.len(),
                part == captured_texts(found@),
                captured_texts(out@) == before + part.take(k as int),
            decreases found@.len() - k,
        {
            let t: Option<String> = match &found[k] {
                Some(t) => Some(t.clone()),
                None => None,
            };
            let ghost done = captured_texts(out@);
            out.push(t);
            assert(captured_texts(out@) =~= done.push(part[k as int]));
            assert(before + part.take(k + 1) =~= done.push(part[k as int]));
            k = k + 1;
        }
        assert(part.take(k as int) =~= part);
        assert(all.take(i + 1).drop_last() =~= all.take(i as int));
        assert(all.take(i + 1).last() == part);
        i = i + 1;
    }
    assert(all.take(i as int) =~= all);
    out
}

/// The node that the captures of a match describe, where `calls` are the texts that are
/// captured under each of them.
pub fn node_of(
    file_path: &str,
    captures: &Vec<Capture>,
    calls: &Vec<Vec<Vec<Option<String>>>>,
) -> (r: CodeNode)
    ensures
        r@ == entity_of(file_path@, captured_match(captures@), match_calls(calls@)),
{
    let ghost all = captured_match(captures@);
    let mut entity_name: String = String::new();
    let mut entity_type: &'static str = "unknown";
    let mut is_function: bool = false;
    let mut content: String = String::new();
    let mut target: Option<usize> = None;
    let mut i: usize = 0;
    proof {
        reveal_strlit("function");
        reveal_strlit("struct");
        reveal_strlit("unknown");
        reveal_strlit("fn.name");
        reveal_strlit("fn.body");
        reveal_strlit("struct.name");
        reveal_strlit("struct.body");
        assert("unknown"@.len() != "function"@.len());
        assert("struct"@.len() != "function"@.len());
        assert("fn.name"@[3] != "fn.body"@[3]);
        assert("struct.name"@[7] != "struct.body"@[7]);
    }
    while i < captures.len()
        invariant
            i <= captures@.len(),
            all == captured_match(captures@),
            "unknown"@ != "function"@,
            "struct"@ != "function"@,
            "fn.name"@ != "fn.body"@,
            "fn.name"@ != "struct.body"@,
            "struct.name"@ != "fn.body"@,
            "struct.name"@ != "struct.body"@,
            "fn.name"@ != "struct.name"@,
            is_function == (entity_type@ == "function"@),
            target matches Some(t) ==> t < captures@.len(),
            draft_of(all, i as int) == (Draft {
                name: entity_name@,
                kind: entity_type@,
                content: content@,
                target: match target {
                    Some(t) => Some(t as int),
                    None => None,
                },
            }),
        decreases captures@.len() - i,
    {
        let c: &Capture = &captures[i];
        let t: String = owned_or_empty(&c.text);
        assert(all[i as int] == (c.name@, text::optional_text(c.text)));
        if text::same_text(c.name.as_str(), "fn.name") {
            entity_name = t;
            entity_type = "function";
            is_function = true;
        } else if text::same_text(c.name.as_str(), "struct.name") {
            entity_name = t;
            entity_type = "struct";
            is_function = false;
        } else if text::same_text(c.name.as_str(), "fn.body") || text::same_text(
            c.name.as_str(),
            "struct.body",
        ) {
            content = t;
            target = Some(i);
        }
        i = i + 1;
    }
    let mut dependencies: Vec<String> = Vec::new();
    assert(text::texts(dependencies@) =~= distinct(Seq::empty()));
    if is_function {
        if let Some(t) = target {
            if t < calls.len() {
                dependencies = distinct_texts(&flat_texts(&calls[t]));
            }
        }
    }
    CodeNode {
        file_path: file_path.to_owned(),
        entity_name,
        entity_type: entity_type.to_owned(),
        content,
        dependencies,
    }
}

/// The nodes that matches describe, where `calls` are the texts that are captured under
/// each of their captures.
pub fn nodes_of(
    file_path: &str,
    matches: &Vec<Vec<Capture>>,
    calls: &Vec<Vec<Vec<Vec<Option<String>>>>>,
) -> (r: Vec<CodeNode>)
    ensures
        entities(r@) == entities_of(file_path@, captured_matches(matches@), all_calls(calls@)),
{
    let none: Vec<Vec<Vec<Option<String>>>> = Vec::new();
    assert(match_calls(none@) =~= Seq::empty());
    let mut out: Vec<CodeNode> = Vec::new();
    let mut i: usize = 0;
    while i < matches.len()
        invariant
            i <= matches@.len(),
            out@.len() == i,
            match_calls(none@) == Seq::<Seq<Seq<Option<Seq<char>>>>>::empty(),
            forall|k: int|
                0 <= k < i ==> (#[trigger] out@[k])@ == entity_of(
                    file_path@,
                    captured_match(matches@[k]@),
                    nth_or_empty(all_calls(calls@), k),
                ),
        decreases matches@.len() - i,
    {
        let under: &Vec<Vec<Vec<Option<String>>>> = if i < calls.len() {
            &calls[i]
        } else {
            &none
        };
        out.push(node_of(file_path, &matches[i], under));
        i = i + 1;
    }
    assert(entities(out@) =~= entities_of(
        file_path@,
        captured_matches(matches@),
        all_calls(calls@),
    ));
    out
}

/// The entities of a source text; none where the parser cannot take it.
pub open spec fn graph_of(file_path: Seq<char>, source: Seq<char>) -> Option<Seq<Entity>> {
    let bytes = encode_utf8(source);
    if bytes.len() > u32::MAX {
        None
    } else {
        match syntax_matches(ENTITY_QUERY@, bytes) {
            Some(matches) => Some(
                entities_of(
                    file_path,
                    matches,
                    match syntax_under(ENTITY_QUERY@, CALL_QUERY@, bytes) {
                        Some(calls) => calls,
                        None => Seq::empty(),
                    },
                ),
            ),
            None => None,
        }
    }
}

/// The functions and structs of a Rust source text, in order; none where the parser
/// cannot take it.
pub fn build_ast_graph(file_path: &str, source_code: &str) -> (r: Option<Vec<CodeNode>>)
    ensures
        match r {
            Some(nodes) => graph_of(file_path@, source_code@) == Some(entities(nodes@)),
            None => graph_of(file_path@, source_code@) is None,
        },
{
    let bytes: &[u8] = source_code.as_bytes();
    if bytes.len() as u64 > u32::MAX as u64 {
        return None;
    }
    proof {
        encode_utf8_valid_utf8(source_code@);
    }
    let matches: Vec<Vec<Capture>> = match matches_in(ENTITY_QUERY, bytes) {
        Some(matches) => matches,
        None => {
            return None;
        },
    };
    let calls: Vec<Vec<Vec<Vec<Option<String>>>>> = match matches_under(
        ENTITY_QUERY,
        CALL_QUERY,
        bytes,
    ) {
        Some(calls) => calls,
        None => {
            let none: Vec<Vec<Vec<Vec<Option<String>>>>> = Vec::new();
            assert(all_calls(none@) =~= Seq::empty());
            none
        },
    };
    Some(nodes_of(file_path, &matches, &calls))
}

// ── Laws ─────────────────────────────────────────────────────────────────────

/// Every call of a function is among its dependencies, each dependency is one of its
/// calls, and none stands there twice.
pub proof fn law_dependencies_are_the_calls(calls: Seq<Option<Seq<char>>>)
    ensures
        distinct(calls).no_duplicates(),
        forall|i: int|
            0 <= i < calls.len() ==> distinct(calls).contains(
                text_or_empty(#[trigger] calls[i]),
            ),
        forall|name: Seq<char>| #[trigger]
            distinct(calls).contains(name) ==> exists|i: int|
                0 <= i < calls.len() && name == text_or_empty(#[trigger] calls[i]),
    decreases calls.len(),
{
    if calls.len() > 0 {
        let rest = calls.drop_last();
        let before = distinct(rest);
        let t = text_or_empty(calls.last());
        law_dependencies_are_the_calls(rest);
        assert forall|i: int| 0 <= i < calls.len() implies distinct(calls).contains(
            text_or_empty(#[trigger] calls[i]),
        ) by {
            if i < calls.len() - 1 {
                assert(rest[i] == calls[i]);
                assert(before.contains(text_or_empty(rest[i])));
                let k = choose|k: int| 0 <= k < before.len() && before[k] == text_or_empty(rest[i]);
                assert(distinct(calls)[k] == before[k]);
            } else if !before.contains(t) {
                assert(distinct(calls)[before.len() as int] == t);
            }
        }
        assert forall|name: Seq<char>| #[trigger] distinct(calls).contains(name) implies exists|
            i: int,
        |
            0 <= i < calls.len() && name == text_or_empty(#[trigger] calls[i]) by {
            let k = choose|k: int| 0 <= k < distinct(calls).len() && distinct(calls)[k] == name;
            if k < before.len() {
                assert(before[k] == name);
                assert(before.contains(name));
                let i = choose|i: int|
                    0 <= i < rest.len() && name == text_or_empty(#[trigger] rest[i]);
                assert(calls[i] == rest[i]);
            } else {
                assert(calls[calls.len() - 1] == calls.last());
            }
        }
    }
}

/// Only functions have dependencies.
pub proof fn law_only_functions_depend(
    file_path: Seq<char>,
    captures: Seq<Captured>,
    calls: Seq<Seq<Seq<Option<Seq<char>>>>>,
)
    ensures
        entity_of(file_path, captures, calls).dependencies.len() > 0 ==> entity_of(
            file_path,
            captures,
            calls,
        ).entity_type == "function"@,
{
}

/// What stands in the parts, at any position of any of them, stands in the whole, and
/// nothing else does.
proof fn lemma_flat_holds_every_part<T>(parts: Seq<Seq<T>>)
    ensures
        forall|j: int, k: int|
            0 <= j < parts.len() && 0 <= k < parts[j].len() ==> flat(parts).contains(
                #[trigger] parts[j][k],
            ),
        forall|x: T| #[trigger]
            flat(parts).contains(x) ==> exists|j: int, k: int|
                0 <= j < parts.len() && 0 <= k < parts[j].len() && #[trigger] parts[j][k] == x,
    decreases parts.len(),
{
    if parts.len() > 0 {
        let rest = parts.drop_last();
        let last = parts.last();
        let n = parts.len() - 1;
        lemma_flat_holds_every_part(rest);
        let before = flat(rest);
        assert forall|j: int, k: int| 0 <= j < parts.len() && 0 <= k < parts[j].len() implies flat(
            parts,
        ).contains(#[trigger] parts[j][k]) by {
            if j < n {
                assert(rest[j][k] == parts[j][k]);
                assert(before.contains(rest[j][k]));
                let i = choose|i: int| 0 <= i < before.len() && before[i] == rest[j][k];
                assert(flat(parts)[i] == parts[j][k]);
            } else {
                assert(flat(parts)[before.len() + k] == parts[j][k]);
            }
        }
        assert forall|x: T| #[trigger] flat(parts).contains(x) implies exists|j: int, k: int|
            0 <= j < parts.len() && 0 <= k < parts[j].len() && #[trigger] parts[j][k] == x by {
            let i = choose|i: int| 0 <= i < flat(parts).len() && flat(parts)[i] == x;
            if i < before.len() {
                assert(before[i] == x);
                assert(before.contains(x));
                let (j, k) = choose|j: int, k: int|
                    0 <= j < rest.len() && 0 <= k < rest[j].len() && #[trigger] rest[j][k] == x;
                assert(parts[j][k] == x);
            } else {
                assert(parts[n][i - before.len()] == x);
            }
        }
    }
}

/// A function depends on exactly the names that are called in it: a name is among its
/// dependencies if and only if it is the text of some capture of some call under the whole
/// of the function. Nothing stands there twice.
pub proof fn law_function_depends_on_every_call(
    file_path: Seq<char>,
    captures: Seq<Captured>,
    calls: Seq<Seq<Seq<Option<Seq<char>>>>>,
    body: int,
    name: Seq<char>,
)
    requires
        0 <= body < captures.len(),
        captures[body].0 == "fn.body"@,
        forall|i: int|
            body < i < captures.len() ==> (#[trigger] captures[i]).0 != "fn.body"@ && captures[i].0
                != "struct.body"@,
        entity_of(file_path, captures, calls).entity_type == "function"@,
        body < calls.len(),
    ensures
        entity_of(file_path, captures, calls).dependencies.contains(name) <==> exists|
            j: int,
            k: int,
        |
            0 <= j < calls[body].len() && 0 <= k < calls[body][j].len() && name == (match #[trigger] calls[body][j][k] {
                Some(t) => t,
                None => Seq::<char>::empty(),
            }),
        entity_of(file_path, captures, calls).dependencies.no_duplicates(),
{
    law_entity_is_what_was_captured(file_path, captures, calls, body, body);
    let d = draft_of(captures, captures.len() as int);
    lemma_target_is_the_last_body(captures, captures.len() as int, body);
    let found = flat(calls[body]);
    let names = distinct(found);
    assert(entity_of(file_path, captures, calls).dependencies == names);
    law_dependencies_are_the_calls(found);
    lemma_flat_holds_every_part(calls[body]);
    if names.contains(name) {
        let i = choose|i: int| 0 <= i < found.len() && name == text_or_empty(#[trigger] found[i]);
        assert(found.contains(found[i]));
        let (j, k) = choose|j: int, k: int|
            0 <= j < calls[body].len() && 0 <= k < calls[body][j].len()
                && #[trigger] calls[body][j][k] == found[i];
        assert(name == text_or_empty(calls[body][j][k]));
    }
    if exists|j: int, k: int|
        0 <= j < calls[body].len() && 0 <= k < calls[body][j].len() && name == (match #[trigger] calls[body][j][k] {
            Some(t) => t,
            None => Seq::<char>::empty(),
        }) {
        let (j, k) = choose|j: int, k: int|
            0 <= j < calls[body].len() && 0 <= k < calls[body][j].len() && name == (match #[trigger] calls[body][j][k] {
                Some(t) => t,
                None => Seq::<char>::empty(),
            });
        assert(found.contains(calls[body][j][k]));
        let i = choose|i: int| 0 <= i < found.len() && found[i] == calls[body][j][k];
        assert(names.contains(text_or_empty(found[i])));
    }
}

/// The last capture of a whole entity is what the entity is taken from.
proof fn lemma_target_is_the_last_body(captures: Seq<Captured>, n: int, body: int)
    requires
        0 <= body < n <= captures.len(),
        captures[body].0 == "fn.body"@ || captures[body].0 == "struct.body"@,
        forall|i: int|
            body < i < n ==> (#[trigger] captures[i]).0 != "fn.body"@ && captures[i].0
                != "struct.body"@,
    ensures
        draft_of(captures, n).target == Some(body),
        draft_of(captures, n).content == text_or_empty(captures[body].1),
    decreases n,
{
    lemma_capture_names();
    if body < n - 1 {
        lemma_target_is_the_last_body(captures, n - 1, body);
        assert(captures[n - 1].0 != "fn.body"@);
    }
}

/// The last capture of a name is what the entity is called by.
proof fn lemma_name_is_the_last_name(captures: Seq<Captured>, n: int, named: int)
    requires
        0 <= named < n <= captures.len(),
        captures[named].0 == "fn.name"@ || captures[named].0 == "struct.name"@,
        forall|i: int|
            named < i < n ==> (#[trigger] captures[i]).0 != "fn.name"@ && captures[i].0
                != "struct.name"@,
    ensures
        draft_of(captures, n).name == text_or_empty(captures[named].1),
        draft_of(captures, n).kind == if captures[named].0 == "fn.name"@ {
            "function"@
        } else {
            "struct"@
        },
    decreases n,
{
    lemma_capture_names();
    if named < n - 1 {
        lemma_name_is_the_last_name(captures, n - 1, named);
        assert(captures[n - 1].0 != "fn.name"@);
    }
}

/// The names of captures differ.
proof fn lemma_capture_names()
    ensures
        "fn.name"@ != "fn.body"@,
        "fn.name"@ != "struct.body"@,
        "struct.name"@ != "fn.body"@,
        "struct.name"@ != "struct.body"@,
        "fn.name"@ != "struct.name"@,
        "function"@ != "struct"@,
{
    reveal_strlit("fn.name");
    reveal_strlit("fn.body");
    reveal_strlit("struct.name");
    reveal_strlit("struct.body");
    reveal_strlit("function");
    reveal_strlit("struct");
    assert("fn.name"@[3] != "fn.body"@[3]);
    assert("struct.name"@[7] != "struct.body"@[7]);
    assert("fn.name"@.len() != "struct.name"@.len());
    assert("function"@.len() != "struct"@.len());
}

/// An entity is in the file that was parsed, its content is the text of its whole, and its
/// name and type are those of the capture of its name.
pub proof fn law_entity_is_what_was_captured(
    file_path: Seq<char>,
    captures: Seq<Captured>,
    calls: Seq<Seq<Seq<Option<Seq<char>>>>>,
    body: int,
    named: int,
)
    ensures
        ({
            let e = entity_of(file_path, captures, calls);
            let whole = 0 <= body < captures.len() && (captures[body].0 == "fn.body"@
                || captures[body].0 == "struct.body"@) && forall|i: int|
                body < i < captures.len() ==> (#[trigger] captures[i]).0 != "fn.body"@
                    && captures[i].0 != "struct.body"@;
            let called = 0 <= named < captures.len() && (captures[named].0 == "fn.name"@
                || captures[named].0 == "struct.name"@) && forall|i: int|
                named < i < captures.len() ==> (#[trigger] captures[i]).0 != "fn.name"@
                    && captures[i].0 != "struct.name"@;
            &&& e.file_path == file_path
            &&& whole ==> e.content == (match captures[body].1 {
                Some(t) => t,
                None => Seq::empty(),
            })
            &&& called ==> e.entity_name == (match captures[named].1 {
                Some(t) => t,
                None => Seq::empty(),
            })
            &&& called && captures[named].0 == "fn.name"@ ==> e.entity_type == "function"@
            &&& called && captures[named].0 == "struct.name"@ ==> e.entity_type == "struct"@
        }),
{
    let n = captures.len() as int;
    lemma_capture_names();
    if 0 <= body < n && (captures[body].0 == "fn.body"@ || captures[body].0 == "struct.body"@) && (
    forall|i: int|
        body < i < n ==> (#[trigger] captures[i]).0 != "fn.body"@ && captures[i].0
            != "struct.body"@) {
        lemma_target_is_the_last_body(captures, n, body);
    }
    if 0 <= named < n && (captures[named].0 == "fn.name"@ || captures[named].0 == "struct.name"@)
        && (forall|i: int|
        named < i < n ==> (#[trigger] captures[i]).0 != "fn.name"@ && captures[i].0
            != "struct.name"@) {
        lemma_name_is_the_last_name(captures, n, named);
    }
}

/// Every match is an entity of its own, in order, with the calls that were found for it.
pub proof fn law_every_match_is_an_entity(
    file_path: Seq<char>,
    matches: Seq<Seq<Captured>>,
    calls: Seq<Seq<Seq<Seq<Option<Seq<char>>>>>>,
    i: int,
)
    requires
        0 <= i < matches.len(),
        i < calls.len(),
    ensures
        entities_of(file_path, matches, calls).len() == matches.len(),
        entities_of(file_path, matches, calls)[i] == entity_of(file_path, matches[i], calls[i]),
{
}

/// Every match that the parser finds in a source text becomes an entity of its file, unless
/// the text is too long for it.
pub proof fn law_graph_has_every_match(
    file_path: Seq<char>,
    source: Seq<char>,
    matches: Seq<Seq<Captured>>,
    calls: Seq<Seq<Seq<Seq<Option<Seq<char>>>>>>,
    i: int,
)
    requires
        encode_utf8(source).len() < 0x1_0000_0000,
        syntax_matches(ENTITY_QUERY@, encode_utf8(source)) == Some(matches),
        syntax_under(ENTITY_QUERY@, CALL_QUERY@, encode_utf8(source)) == Some(calls),
        0 <= i < matches.len(),
        i < calls.len(),
    ensures
        graph_of(file_path, source) matches Some(es) && es.len() == matches.len() && es[i]
            == entity_of(file_path, matches[i], calls[i]),
{
}

/// What is said of captures is what they hold, one for one and text for text.
pub proof fn law_captures_are_read_as_they_are(
    captures: Seq<Capture>,
    calls: Seq<Vec<Vec<Option<String>>>>,
    i: int,
    j: int,
    k: int,
)
    ensures
        captured_match(captures).len() == captures.len(),
        0 <= i < captures.len() ==> captured_match(captures)[i] == (
            captures[i].name@,
            text::optional_text(captures[i].text),
        ),
        match_calls(calls).len() == calls.len(),
        0 <= i < calls.len() ==> match_calls(calls)[i].len() == calls[i]@.len(),
        0 <= i < calls.len() && 0 <= j < calls[i]@.len() ==> match_calls(calls)[i][j].len()
            == calls[i]@[j]@.len(),
        0 <= i < calls.len() && 0 <= j < calls[i]@.len() && 0 <= k < calls[i]@[j]@.len()
            ==> match_calls(calls)[i][j][k] == text::optional_text(calls[i]@[j]@[k]),
{
}

/// The calls of a function are gone through in order, and a name that was met before is not
/// taken again.
pub proof fn law_dependencies_come_in_order(
    parts: Seq<Seq<Option<Seq<char>>>>,
    part: Seq<Option<Seq<char>>>,
    calls: Seq<Option<Seq<char>>>,
    call: Option<Seq<char>>,
)
    ensures
        flat(Seq::<Seq<Option<Seq<char>>>>::empty()).len() == 0,
        flat(parts.push(part)) == flat(parts) + part,
        distinct(Seq::empty()).len() == 0,
        ({
            let name = match call {
                Some(t) => t,
                None => Seq::empty(),
            };
            &&& distinct(calls).contains(name) ==> distinct(calls.push(call)) == distinct(calls)
            &&& !distinct(calls).contains(name) ==> distinct(calls.push(call)) == distinct(
                calls,
            ).push(name)
        }),
{
    assert(parts.push(part).drop_last() =~= parts);
    assert(calls.push(call).drop_last() =~= calls);
}

/// The dependencies of a function are its calls, in order and each once, under the last capture
/// of a whole entity; without such a capture, or without calls for it, there are none.
pub proof fn law_calls_are_those_under_the_whole(
    file_path: Seq<char>,
    captures: Seq<Captured>,
    calls: Seq<Seq<Seq<Option<Seq<char>>>>>,
    body: int,
)
    ensures
        ({
            let e = entity_of(file_path, captures, calls);
            let whole = 0 <= body < captures.len() && (captures[body].0 == "fn.body"@
                || captures[body].0 == "struct.body"@) && forall|i: int|
                body < i < captures.len() ==> (#[trigger] captures[i]).0 != "fn.body"@
                    && captures[i].0 != "struct.body"@;
            &&& whole && e.entity_type == "function"@ && body < calls.len() ==> e.dependencies
                == distinct(flat(calls[body]))
            &&& whole && body >= calls.len() ==> e.dependencies.len() == 0
            &&& e.entity_type != "function"@ ==> e.dependencies.len() == 0
        }),
{
    let n = captures.len() as int;
    if 0 <= body < n && (captures[body].0 == "fn.body"@ || captures[body].0 == "struct.body"@) && (
    forall|i: int|
        body < i < n ==> (#[trigger] captures[i]).0 != "fn.body"@ && captures[i].0
            != "struct.body"@) {
        lemma_target_is_the_last_body(captures, n, body);
    }
}

/// What is not captured is not known: without a name an entity has none, and is of an unknown
/// type; without a whole it has no content.
pub proof fn law_uncaptured_is_unknown(
    file_path: Seq<char>,
    captures: Seq<Captured>,
    calls: Seq<Seq<Seq<Option<Seq<char>>>>>,
)
    ensures
        ({
            let e = entity_of(file_path, captures, calls);
            let unnamed = forall|i: int|
                0 <= i < captures.len() ==> (#[trigger] captures[i]).0 != "fn.name"@ && captures[i].0
                    != "struct.name"@;
            let bare = forall|i: int|
                0 <= i < captures.len() ==> (#[trigger] captures[i]).0 != "fn.body"@ && captures[i].0
                    != "struct.body"@;
            &&& unnamed ==> e.entity_name.len() == 0 && e.entity_type == "unknown"@
            &&& bare ==> e.content.len() == 0 && e.dependencies.len() == 0
        }),
{
    lemma_uncaptured(captures, captures.len() as int);
}

/// The same of a draft.
proof fn lemma_uncaptured(captures: Seq<Captured>, n: int)
    requires
        n <= captures.len(),
    ensures
        ({
            let d = draft_of(captures, n);
            let unnamed = forall|i: int|
                0 <= i < n ==> (#[trigger] captures[i]).0 != "fn.name"@ && captures[i].0
                    != "struct.name"@;
            let bare = forall|i: int|
                0 <= i < n ==> (#[trigger] captures[i]).0 != "fn.body"@ && captures[i].0
                    != "struct.body"@;
            &&& unnamed ==> d.name.len() == 0 && d.kind == "unknown"@
            &&& bare ==> d.content.len() == 0 && d.target is None
        }),
    decreases n,
{
    if n > 0 {
        lemma_uncaptured(captures, n - 1);
        assert(captures[n - 1] == captures[n - 1]);
    }
}

/// A source text has no graph exactly where it is too long for the parser or cannot be parsed;
/// and where the calls cannot be found, its entities are there without them.
pub proof fn law_graph_is_there_unless_the_parser_fails(
    file_path: Seq<char>,
    source: Seq<char>,
    i: int,
)
    ensures
        ({
            let bytes = encode_utf8(source);
            let matches = syntax_matches(ENTITY_QUERY@, bytes);
            &&& graph_of(file_path, source) is None <==> bytes.len() >= 0x1_0000_0000 || matches
                is None
            &&& graph_of(file_path, source) is Some && syntax_under(
                ENTITY_QUERY@,
                CALL_QUERY@,
                bytes,
            ) is None && 0 <= i < matches->0.len() ==> graph_of(file_path, source)->0[i]
                == entity_of(file_path, matches->0[i], Seq::empty())
        }),
{
}

/// What is said of nodes is what they hold, one for one, with all their dependencies.
pub proof fn law_nodes_are_read_as_they_are(nodes: Seq<CodeNode>, i: int, k: int)
    requires
        0 <= i < nodes.len(),
    ensures
        entities(nodes).len() == nodes.len(),
        entities(nodes)[i].file_path == nodes[i].file_path@,
        entities(nodes)[i].entity_name == nodes[i].entity_name@,
        entities(nodes)[i].entity_type == nodes[i].entity_type@,
        entities(nodes)[i].content == nodes[i].content@,
        entities(nodes)[i].dependencies.len() == nodes[i].dependencies@.len(),
        0 <= k < nodes[i].dependencies@.len() ==> entities(nodes)[i].dependencies[k]
            == nodes[i].dependencies@[k]@,
{
}

/// What is said of matches is what they hold, one for one.
pub proof fn law_matches_are_read_as_they_are(
    matches: Seq<Vec<Capture>>,
    calls: Seq<Vec<Vec<Vec<Option<String>>>>>,
    i: int,
)
    ensures
        captured_matches(matches).len() == matches.len(),
        0 <= i < matches.len() ==> captured_matches(matches)[i] == captured_match(matches[i]@),
        all_calls(calls).len() == calls.len(),
        0 <= i < calls.len() ==> all_calls(calls)[i] == match_calls(calls[i]@),
{
}

} // verus!
