//! How the nodes of a scan are put into the vector database: one after the other, each is
//! embedded and then stored, with a pause after each batch.
//!
//! The indexer decides; the embedding and the storing are done elsewhere, and what comes of
//! them is handed back to it as an event.

use vstd::prelude::*;

use crate::ast_graph::{entities, CodeNode, Entity};
use crate::memory::{MemoryPayload, Metadata};

verus! {

/// After how many nodes the indexing pauses.
pub const BATCH_SIZE: usize = 30;

/// How long it pauses, in milliseconds.
pub const BATCH_PAUSE_MS: u64 = 400;

/// The payload of an entity.
pub open spec fn metadata_of(e: Entity) -> Metadata {
    Metadata {
        file_path: e.file_path,
        entity_name: e.entity_name,
        entity_type: e.entity_type,
        content: e.content,
    }
}

/// The payload of a node.
pub fn payload_of(node: &CodeNode) -> (r: MemoryPayload)
    ensures
        r@ == metadata_of(node@),
{
    MemoryPayload {
        file_path: node.file_path.clone(),
        entity_name: node.entity_name.clone(),
        entity_type: node.entity_type.clone(),
        content: node.content.clone(),
    }
}

// ── Events and commands ──────────────────────────────────────────────────────

/// What came of a command.
#[derive(Debug)]
pub enum IndexEvent {
    /// The indexing begins.
    Begin,
    /// The text has this embedding, by the bits of its components.
    Embedded { vector: Vec<u64> },
    /// The text could not be embedded.
    NotEmbedded,
    /// The point was stored.
    Stored,
    /// The point could not be stored.
    NotStored,
    /// The pause is over.
    Rested,
}

/// What to do next.
#[derive(Debug)]
pub enum IndexCommand {
    /// Have this text embedded.
    Embed { text: String },
    /// Have this point stored.
    Store { id: u64, vector: Vec<u64>, payload: MemoryPayload },
    /// Wait this long, in milliseconds.
    Pause { millis: u64 },
    /// Nothing: all nodes were dealt with.
    Finish,
    /// Nothing: the event was not awaited.
    Ignore,
}

/// What a command says.
pub enum IndexStep {
    Embed { text: Seq<char> },
    Store { id: int, vector: Seq<u64>, payload: Metadata },
    Pause { millis: u64 },
    Finish,
    Ignore,
}

impl View for IndexCommand {
    type V = IndexStep;

    open spec fn view(&self) -> IndexStep {
        match self {
            IndexCommand::Embed { text } => IndexStep::Embed { text: text@ },
            IndexCommand::Store { id, vector, payload } => IndexStep::Store {
                id: *id as int,
                vector: vector@,
                payload: payload@,
            },
            IndexCommand::Pause { millis } => IndexStep::Pause { millis: *millis },
            IndexCommand::Finish => IndexStep::Finish,
            IndexCommand::Ignore => IndexStep::Ignore,
        }
    }
}

// ── State ────────────────────────────────────────────────────────────────────

/// What the indexer waits for.
#[derive(Debug, Clone, Copy, PartialEq, Eq, Structural)]
pub enum IndexStage {
    /// The beginning.
    Ready,
    /// The embedding of a node.
    Embedding,
    /// That a node is stored.
    Storing,
    /// The end of a pause.
    Pausing,
    /// Nothing: all nodes were dealt with.
    Over,
}

/// The indexing of the nodes of a scan.
#[derive(Debug)]
pub struct Indexer {
    nodes: Vec<CodeNode>,
    first_id: u64,
    index: usize,
    stored: usize,
    stage: IndexStage,
}

/// The state of an indexing.
pub struct Progress {
    /// The entities to be stored.
    pub nodes: Seq<Entity>,
    /// How many of them were dealt with.
    pub index: int,
    /// The identifier of the next point.
    pub id: int,
    pub stage: IndexStage,
}

/// The indexing of `nodes` before its beginning, with `first_id` for the first point.
pub open spec fn fresh_progress(nodes: Seq<Entity>, first_id: int) -> Progress {
    Progress { nodes, index: 0, id: first_id, stage: IndexStage::Ready }
}

/// What follows once as many nodes were dealt with as the index says: the next one is
/// embedded.
pub open spec fn reached(p: Progress) -> (Progress, IndexStep) {
    if 0 <= p.index < p.nodes.len() {
        (
            Progress { stage: IndexStage::Embedding, ..p },
            IndexStep::Embed { text: p.nodes[p.index].content },
        )
    } else {
        (Progress { stage: IndexStage::Over, ..p }, IndexStep::Finish)
    }
}

/// What follows a node that was dealt with: after a whole batch a pause, and else the next
/// node.
pub open spec fn passed(p: Progress) -> (Progress, IndexStep) {
    let after = Progress { index: p.index + 1, ..p };
    if after.index % (BATCH_SIZE as int) == 0 {
        (
            Progress { stage: IndexStage::Pausing, ..after },
            IndexStep::Pause { millis: BATCH_PAUSE_MS },
        )
    } else {
        reached(after)
    }
}

/// What an event leads to. One that is not awaited changes nothing. The identifier of a
/// point that was not stored is used again.
pub open spec fn indexed(p: Progress, e: IndexEvent) -> (Progress, IndexStep) {
    match (p.stage, e) {
        (IndexStage::Ready, IndexEvent::Begin) => reached(p),
        (IndexStage::Embedding, IndexEvent::Embedded { vector }) => (
            Progress { stage: IndexStage::Storing, ..p },
            IndexStep::Store {
                id: p.id,
                vector: vector@,
                payload: metadata_of(p.nodes[p.index]),
            },
        ),
        (IndexStage::Embedding, IndexEvent::NotEmbedded) => passed(p),
        (IndexStage::Storing, IndexEvent::Stored) => passed(Progress { id: p.id + 1, ..p }),
        (IndexStage::Storing, IndexEvent::NotStored) => passed(p),
        (IndexStage::Pausing, IndexEvent::Rested) => reached(p),
        _ => (p, IndexStep::Ignore),
    }
}

// ── The indexer ──────────────────────────────────────────────────────────────

impl View for Indexer {
    type V = Progress;

    closed spec fn view(&self) -> Progress {
        Progress {
            nodes: entities(self.nodes@),
            index: self.index as int,
            id: self.first_id + self.stored,
            stage: self.stage,
        }
    }
}

impl Indexer {
    /// There is an identifier for every node, no more nodes were stored than dealt with,
    /// and there is a node while one is embedded or stored.
    #[verifier::type_invariant]
    spec fn inv(self) -> bool {
        &&& self.first_id + self.nodes@.len() <= u64::MAX
        &&& self.stored <= self.index <= self.nodes@.len()
        &&& self.stage == IndexStage::Embedding || self.stage == IndexStage::Storing ==> self.index
            < self.nodes@.len()
    }

    /// The indexing of `nodes`, with `first_id` for the first point.
    pub fn new(nodes: Vec<CodeNode>, first_id: u64) -> (r: Self)
        requires
            first_id + nodes@.len() <= u64::MAX,
        ensures
            r@ == fresh_progress(entities(nodes@), first_id as int),
    {
        Indexer { nodes, first_id, index: 0, stored: 0, stage: IndexStage::Ready }
    }

    /// Turns to the node at the index.
    fn reach(&mut self) -> (r: IndexCommand)
        ensures
            (final(self)@, r@) == reached(old(self)@),
    {
        proof {
            use_type_invariant(&*self);
        }
        if self.index < self.nodes.len() {
            self.stage = IndexStage::Embedding;
            IndexCommand::Embed { text: self.nodes[self.index].content.clone() }
        } else {
            self.stage = IndexStage::Over;
            IndexCommand::Finish
        }
    }

    /// Leaves the node at the index, of which `stored` says whether it was stored.
    fn pass(&mut self, stored: bool) -> (r: IndexCommand)
        requires
            old(self)@.stage == IndexStage::Embedding || old(self)@.stage == IndexStage::Storing,
        ensures
            (final(self)@, r@) == passed(
                Progress {
                    id: if stored {
                        old(self)@.id + 1
                    } else {
                        old(self)@.id
                    },
                    ..old(self)@
                },
            ),
    {
        proof {
            use_type_invariant(&*self);
        }
        let count: usize = self.nodes.len();
        assert(self.index < count);
        self.stage = IndexStage::Pausing;
        self.index = self.index + 1;
        if stored {
            self.stored = self.stored + 1;
        }
        if self.index % BATCH_SIZE == 0 {
            IndexCommand::Pause { millis: BATCH_PAUSE_MS }
        } else {
            self.reach()
        }
    }

    /// Takes in an event and says what it leads to.
    pub fn advance(&mut self, event: IndexEvent) -> (r: IndexCommand)
        ensures
            (final(self)@, r@) == indexed(old(self)@, event),
    {
        proof {
            use_type_invariant(&*self);
        }
        match (self.stage, event) {
            (IndexStage::Ready, IndexEvent::Begin) => self.reach(),
            (IndexStage::Embedding, IndexEvent::Embedded { vector }) => {
                self.stage = IndexStage::Storing;
                IndexCommand::Store {
                    id: self.first_id + self.stored as u64,
                    vector,
                    payload: payload_of(&self.nodes[self.index]),
                }
            },
            (IndexStage::Embedding, IndexEvent::NotEmbedded) => self.pass(false),
            (IndexStage::Storing, IndexEvent::Stored) => self.pass(true),
            (IndexStage::Storing, IndexEvent::NotStored) => self.pass(false),
            (IndexStage::Pausing, IndexEvent::Rested) => self.reach(),
            _ => IndexCommand::Ignore,
        }
    }
}

// ── Laws ─────────────────────────────────────────────────────────────────────

/// The indexing after the events `es`, one after the other.
pub open spec fn indexed_all(p: Progress, es: Seq<IndexEvent>) -> Progress
    decreases es.len(),
{
    if es.len() == 0 {
        p
    } else {
        indexed(indexed_all(p, es.drop_last()), es.last()).0
    }
}

/// How many points were stored in the course of the events `es`.
pub open spec fn count_stored(p: Progress, es: Seq<IndexEvent>) -> int
    decreases es.len(),
{
    if es.len() == 0 {
        0
    } else {
        let before = count_stored(p, es.drop_last());
        if indexed_all(p, es.drop_last()).stage == IndexStage::Storing && es.last() is Stored {
            before + 1
        } else {
            before
        }
    }
}

/// The identifier of the next point is as far from the first as points were stored: the
/// identifiers of stored points follow each other without a gap.
pub proof fn law_ids_have_no_gaps(p: Progress, es: Seq<IndexEvent>)
    ensures
        indexed_all(p, es).id == p.id + count_stored(p, es),
        count_stored(p, es) >= 0,
    decreases es.len(),
{
    if es.len() > 0 {
        law_ids_have_no_gaps(p, es.drop_last());
    }
}

/// A point that was stored has an identifier of its own: whatever happens afterwards, every
/// other point is sent with a greater one.
pub proof fn law_stored_points_have_their_own_ids(
    p: Progress,
    es: Seq<IndexEvent>,
    e: IndexEvent,
)
    requires
        p.stage == IndexStage::Storing,
    ensures
        indexed(indexed_all(indexed(p, IndexEvent::Stored).0, es), e).1 matches IndexStep::Store {
            id,
            vector,
            payload,
        } ==> id > p.id,
{
    law_ids_have_no_gaps(indexed(p, IndexEvent::Stored).0, es);
}

/// A point is stored with the payload of the node whose content was embedded for it.
pub proof fn law_payload_is_that_of_the_embedded_text(p: Progress, e: IndexEvent, vector: Vec<u64>)
    ensures
        indexed(p, e).1 matches IndexStep::Embed { text } ==> {
            let (asked, _) = indexed(p, e);
            let (_, step) = indexed(asked, IndexEvent::Embedded { vector });
            step matches IndexStep::Store { id, vector: v, payload } && payload.content == text && v
                == vector@
        },
{
}

/// What holds of an indexing at any time: the nodes are the same, no more of them were dealt
/// with than there are, there is a node while one is embedded or stored, and at the end all
/// were dealt with.
pub open spec fn orderly(first: Progress, p: Progress) -> bool {
    &&& p.nodes == first.nodes
    &&& 0 <= p.index <= p.nodes.len()
    &&& p.stage == IndexStage::Embedding || p.stage == IndexStage::Storing ==> p.index
        < p.nodes.len()
    &&& p.stage == IndexStage::Over ==> p.index == p.nodes.len()
}

/// An indexing stays orderly, whatever happens; in particular it does not end before every
/// node was dealt with.
pub proof fn law_indexing_stays_orderly(nodes: Seq<Entity>, first_id: int, es: Seq<IndexEvent>)
    ensures
        orderly(
            fresh_progress(nodes, first_id),
            indexed_all(fresh_progress(nodes, first_id), es),
        ),
    decreases es.len(),
{
    if es.len() > 0 {
        law_indexing_stays_orderly(nodes, first_id, es.drop_last());
    }
}

/// The texts that are to be embedded in the course of the events `es`, in order.
pub open spec fn embedded_texts(p: Progress, es: Seq<IndexEvent>) -> Seq<Seq<char>>
    decreases es.len(),
{
    if es.len() == 0 {
        Seq::empty()
    } else {
        let before = embedded_texts(p, es.drop_last());
        match indexed(indexed_all(p, es.drop_last()), es.last()).1 {
            IndexStep::Embed { text } => before.push(text),
            _ => before,
        }
    }
}

/// Every node is embedded once and in order: whatever happens, the texts that were to be
/// embedded are the contents of the first nodes, and at the end of all of them.
pub proof fn law_every_node_is_embedded_once(nodes: Seq<Entity>, first_id: int, es: Seq<IndexEvent>)
    ensures
        ({
            let p = indexed_all(fresh_progress(nodes, first_id), es);
            let texts = embedded_texts(fresh_progress(nodes, first_id), es);
            let under_way = p.stage == IndexStage::Embedding || p.stage == IndexStage::Storing;
            &&& texts.len() == p.index + if under_way {
                1int
            } else {
                0
            }
            &&& texts.len() <= nodes.len()
            &&& forall|i: int| 0 <= i < texts.len() ==> #[trigger] texts[i] == nodes[i].content
            &&& p.stage == IndexStage::Over ==> texts.len() == nodes.len()
        }),
    decreases es.len(),
{
    if es.len() > 0 {
        law_every_node_is_embedded_once(nodes, first_id, es.drop_last());
        law_indexing_stays_orderly(nodes, first_id, es.drop_last());
    }
}

/// A vector is stored as it came, with the identifier that is next and with all that is known
/// of the node that it was made of.
pub proof fn law_vector_is_stored_as_it_came(p: Progress, vector: Vec<u64>)
    requires
        p.stage == IndexStage::Embedding,
    ensures
        ({
            let (after, step) = indexed(p, IndexEvent::Embedded { vector });
            let node = p.nodes[p.index];
            &&& step == (IndexStep::Store {
                id: p.id,
                vector: vector@,
                payload: Metadata {
                    file_path: node.file_path,
                    entity_name: node.entity_name,
                    entity_type: node.entity_type,
                    content: node.content,
                },
            })
            &&& after.stage == IndexStage::Storing
            &&& after.id == p.id
            &&& after.index == p.index
        }),
{
}

/// Once a node is dealt with, whatever came of it, the next is turned to, after a pause of
/// four tenths of a second where it ends a batch of thirty; and nothing is left when all were
/// dealt with.
pub proof fn law_next_node_is_turned_to(p: Progress, e: IndexEvent)
    requires
        0 <= p.index < p.nodes.len(),
        (p.stage == IndexStage::Embedding && e is NotEmbedded) || (p.stage == IndexStage::Storing
            && (e is Stored || e is NotStored)),
    ensures
        ({
            let (after, step) = indexed(p, e);
            let (rested, next) = indexed(after, IndexEvent::Rested);
            let n = p.index + 1;
            &&& after.index == n
            &&& after.id == if e is Stored {
                p.id + 1
            } else {
                p.id
            }
            &&& n % 30 == 0 ==> step == (IndexStep::Pause { millis: 400 })
            &&& n % 30 == 0 && n < p.nodes.len() ==> next == (IndexStep::Embed {
                text: p.nodes[n].content,
            })
            &&& n % 30 == 0 && n == p.nodes.len() ==> next == IndexStep::Finish
            &&& n % 30 != 0 && n < p.nodes.len() ==> step == (IndexStep::Embed {
                text: p.nodes[n].content,
            })
            &&& n % 30 != 0 && n == p.nodes.len() ==> step == IndexStep::Finish
        }),
{
}

/// An indexing begins with its first node, or is over where there is none.
pub proof fn law_indexing_begins_with_the_first_node(nodes: Seq<Entity>, first_id: int)
    ensures
        ({
            let (after, step) = indexed(fresh_progress(nodes, first_id), IndexEvent::Begin);
            &&& nodes.len() > 0 ==> step == (IndexStep::Embed { text: nodes[0].content })
            &&& nodes.len() == 0 ==> step == IndexStep::Finish
            &&& after.id == first_id
        }),
{
}

/// Only what does not belong to the stage is ignored, and changes nothing.
pub proof fn law_only_unawaited_index_events_are_ignored(p: Progress, e: IndexEvent)
    ensures
        indexed(p, e).1 == IndexStep::Ignore <==> !match p.stage {
            IndexStage::Ready => e is Begin,
            IndexStage::Embedding => e is Embedded || e is NotEmbedded,
            IndexStage::Storing => e is Stored || e is NotStored,
            IndexStage::Pausing => e is Rested,
            IndexStage::Over => false,
        },
        indexed(p, e).1 == IndexStep::Ignore ==> indexed(p, e).0 == p,
{
}

/// What is said of a command is what it holds.
pub proof fn law_index_command_is_read_as_it_is(c: IndexCommand)
    ensures
        c matches IndexCommand::Embed { text } ==> c@ == (IndexStep::Embed { text: text@ }),
        c matches IndexCommand::Store { id, vector, payload } ==> {
            &&& c@ matches IndexStep::Store { id: i, vector: v, payload: p }
            &&& i == id
            &&& v == vector@
            &&& p.file_path == payload.file_path@
            &&& p.entity_name == payload.entity_name@
            &&& p.entity_type == payload.entity_type@
            &&& p.content == payload.content@
        },
        c matches IndexCommand::Pause { millis } ==> c@ == (IndexStep::Pause { millis }),
        c is Finish <==> c@ is Finish,
        c is Ignore <==> c@ is Ignore,
{
}

} // verus!
