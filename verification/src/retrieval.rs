//! Which search results reach a prompt, and how they stand there.

use vstd::arithmetic::power2::{lemma_pow2_pos, lemma_pow2_strictly_increases, lemma_pow2_unfold, pow2};
use vstd::prelude::*;

use crate::memory::{scored_views, Metadata, Scored, ScoredChunk};
use crate::text;

verus! {

/// How many search results are asked for.
pub const SEARCH_LIMIT: usize = 2;

// ── Scores ───────────────────────────────────────────────────────────────────

/// The bits of the least score that qualifies, which is the single nearest to 0.35.
pub const MIN_RETRIEVAL_SCORE_BITS: u32 = 0x3eb33333;

/// The bits of infinity. The bits of a finite number that is not negative are smaller.
pub const INFINITY_BITS: u32 = 0x7f800000;

/// The value of the finite single with these bits, which is not negative, as a multiple
/// of the smallest such value: the low 23 bits are the fraction, those above them the
/// exponent, and only an exponent of zero has no leading one before the fraction.
pub open spec fn magnitude(bits: u32) -> nat {
    let exponent = bits as nat / 0x800000;
    let fraction = bits as nat % 0x800000;
    if exponent == 0 {
        fraction
    } else {
        (0x800000 + fraction) * pow2((exponent - 1) as nat)
    }
}

/// Whether a score qualifies: it is a number, and not below the least that does.
pub open spec fn qualifies(bits: u32) -> bool {
    ||| bits == INFINITY_BITS
    ||| bits < INFINITY_BITS && magnitude(bits) >= magnitude(MIN_RETRIEVAL_SCORE_BITS)
}

/// The order of the bits is the order of the numbers.
proof fn lemma_magnitude_increases(a: u32, b: u32)
    requires
        a < b < INFINITY_BITS,
    ensures
        magnitude(a) < magnitude(b),
{
    let ea = a as nat / 0x800000;
    let eb = b as nat / 0x800000;
    let fa = a as nat % 0x800000;
    let fb = b as nat % 0x800000;
    if ea == eb {
        if ea > 0 {
            let p = pow2((ea - 1) as nat);
            lemma_pow2_pos((ea - 1) as nat);
            assert((0x800000 + fa) * p < (0x800000 + fb) * p) by (nonlinear_arith)
                requires
                    fa < fb,
                    p > 0,
            ;
        }
    } else {
        assert(ea < eb);
        let q = pow2((eb - 1) as nat);
        lemma_pow2_pos((eb - 1) as nat);
        assert((0x800000 + fb) * q >= 0x800000 * q) by (nonlinear_arith)
            requires
                fb >= 0,
                q > 0,
        ;
        if ea == 0 {
            assert(0x800000 * q >= 0x800000) by (nonlinear_arith)
                requires
                    q > 0,
            ;
        } else {
            let p = pow2((ea - 1) as nat);
            lemma_pow2_pos((ea - 1) as nat);
            lemma_pow2_unfold(ea);
            if ea < eb - 1 {
                lemma_pow2_strictly_increases(ea, (eb - 1) as nat);
            }
            assert(2 * p <= q);
            assert((0x800000 + fa) * p < 0x1000000 * p) by (nonlinear_arith)
                requires
                    fa < 0x800000,
                    p > 0,
            ;
        }
    }
}

/// Whether a score qualifies.
pub fn is_qualified(score_bits: u32) -> (r: bool)
    ensures
        r == qualifies(score_bits),
{
    proof {
        if score_bits < INFINITY_BITS {
            if score_bits < MIN_RETRIEVAL_SCORE_BITS {
                lemma_magnitude_increases(score_bits, MIN_RETRIEVAL_SCORE_BITS);
            } else if MIN_RETRIEVAL_SCORE_BITS < score_bits {
                lemma_magnitude_increases(MIN_RETRIEVAL_SCORE_BITS, score_bits);
            }
        }
    }
    MIN_RETRIEVAL_SCORE_BITS <= score_bits && score_bits <= INFINITY_BITS
}

// ── Context ──────────────────────────────────────────────────────────────────

/// Whether a file belongs to the agent itself, whose code is kept out of prompts.
pub open spec fn own_file(file_path: Seq<char>) -> bool {
    text::contains_text(file_path, "miller_core"@) || text::contains_text(
        file_path,
        "miller_parser"@,
    )
}

/// How a code chunk stands in a prompt.
pub open spec fn context_entry(m: Metadata) -> Seq<char> {
    "// From File: "@ + m.file_path + "\n// Entity: "@ + m.entity_name + "\n"@ + m.content
        + "\n\n"@
}

/// The search results that qualify, in order.
pub open spec fn qualified(chunks: Seq<Scored>) -> Seq<Scored> {
    chunks.filter(|c: Scored| qualifies(c.score_bits))
}

/// `head` followed by how the chunks stand in a prompt, without those of the agent itself.
pub open spec fn with_entries(head: Seq<char>, chunks: Seq<Scored>) -> Seq<char>
    decreases chunks.len(),
{
    if chunks.len() == 0 {
        head
    } else {
        let before = with_entries(head, chunks.drop_last());
        if own_file(chunks.last().payload.file_path) {
            before
        } else {
            before + context_entry(chunks.last().payload)
        }
    }
}

/// The context of a prompt: nothing where no search result qualifies, and else those that
/// do, framed.
pub open spec fn context_block(chunks: Seq<Scored>) -> Seq<char> {
    let good = qualified(chunks);
    if good.len() == 0 {
        Seq::empty()
    } else {
        with_entries("\n--- RELEVANT EXISTING CONTEXT CODE ---\n"@, good)
            + "---------------------------------------\n"@
    }
}

/// How many of the search results qualify.
pub fn count_qualified(chunks: &Vec<ScoredChunk>) -> (r: usize)
    ensures
        r == qualified(scored_views(chunks@)).len(),
{
    let ghost all = scored_views(chunks@);
    let mut n: usize = 0;
    let mut i: usize = 0;
    proof {
        reveal(Seq::filter);
        assert(all.take(0) =~= Seq::empty());
    }
    while i < chunks.len()
        invariant
            i <= chunks@.len(),
            n <= i,
            all == scored_views(chunks@),
            n == qualified(all.take(i as int)).len(),
        decreases chunks@.len() - i,
    {
        proof {
            reveal(Seq::filter);
            assert(all.take(i + 1).drop_last() =~= all.take(i as int));
        }
        if is_qualified(chunks[i].score_bits) {
            n = n + 1;
        }
        i = i + 1;
    }
    assert(all.take(i as int) =~= all);
    n
}

/// Builds the context of a prompt from search results.
pub fn build_context(chunks: &Vec<ScoredChunk>) -> (r: String)
    ensures
        r@ == context_block(scored_views(chunks@)),
{
    if count_qualified(chunks) == 0 {
        return String::new();
    }
    let ghost head = "\n--- RELEVANT EXISTING CONTEXT CODE ---\n"@;
    let ghost all = scored_views(chunks@);
    let mut out: String = "\n--- RELEVANT EXISTING CONTEXT CODE ---\n".to_owned();
    let mut i: usize = 0;
    proof {
        reveal(Seq::filter);
        assert(all.take(0) =~= Seq::empty());
    }
    while i < chunks.len()
        invariant
            i <= chunks@.len(),
            all == scored_views(chunks@),
            out@ == with_entries(head, qualified(all.take(i as int))),
        decreases chunks@.len() - i,
    {
        let chunk: &ScoredChunk = &chunks[i];
        let ghost good = qualified(all.take(i as int));
        proof {
            reveal(Seq::filter);
            assert(all.take(i + 1).drop_last() =~= all.take(i as int));
            assert(all.take(i + 1).last() == chunk@);
            assert(good.push(chunk@).drop_last() =~= good);
        }
        if is_qualified(chunk.score_bits) {
            let path: &str = chunk.payload.file_path.as_str();
            if !(text::contains(path, "miller_core") || text::contains(path, "miller_parser")) {
                let ghost before = out@;
                out.append("// From File: ");
                out.append(path);
                out.append("\n// Entity: ");
                out.append(chunk.payload.entity_name.as_str());
                out.append("\n");
                out.append(chunk.payload.content.as_str());
                out.append("\n\n");
                assert(out@ =~= before + context_entry(chunk.payload@));
            }
        }
        i = i + 1;
    }
    assert(all.take(i as int) =~= all);
    out.append("---------------------------------------\n");
    out
}

// ── Laws ─────────────────────────────────────────────────────────────────────

/// The order of the bits of scores that are not negative is the order of the scores, so
/// the threshold separates the scores below it from those that are not.
pub proof fn law_threshold_separates(low: u32, high: u32)
    requires
        low <= high <= INFINITY_BITS,
        qualifies(low),
    ensures
        qualifies(high),
{
    if high < INFINITY_BITS && low < high {
        lemma_magnitude_increases(low, high);
    }
}

/// A search result below the threshold leaves the context as it is.
pub proof fn law_poor_results_are_discarded(before: Seq<Scored>, poor: Scored, after: Seq<Scored>)
    requires
        !qualifies(poor.score_bits),
    ensures
        context_block(before + seq![poor] + after) == context_block(before + after),
{
    lemma_poor_result_is_filtered(before, poor, after);
}

/// A search result below the threshold does not qualify.
proof fn lemma_poor_result_is_filtered(before: Seq<Scored>, poor: Scored, after: Seq<Scored>)
    requires
        !qualifies(poor.score_bits),
    ensures
        qualified(before + seq![poor] + after) == qualified(before + after),
    decreases after.len(),
{
    reveal(Seq::filter);
    let with = before + seq![poor] + after;
    let without = before + after;
    if after.len() == 0 {
        assert(with.drop_last() =~= before);
        assert(with.last() == poor);
        assert(without =~= before);
    } else {
        lemma_poor_result_is_filtered(before, poor, after.drop_last());
        assert(with.drop_last() =~= before + seq![poor] + after.drop_last());
        assert(without.drop_last() =~= before + after.drop_last());
        assert(with.last() == after.last());
        assert(without.last() == after.last());
    }
}

/// A qualified search result of another project stands in the context.
pub proof fn law_good_results_are_injected(chunks: Seq<Scored>, i: int)
    requires
        0 <= i < qualified(chunks).len(),
        !own_file(qualified(chunks)[i].payload.file_path),
    ensures
        text::contains_text(
            context_block(chunks),
            context_entry(qualified(chunks)[i].payload),
        ),
{
    let head = "\n--- RELEVANT EXISTING CONTEXT CODE ---\n"@;
    let foot = "---------------------------------------\n"@;
    let good = qualified(chunks);
    let entry = context_entry(good[i].payload);
    let k = lemma_entry_stands(head, good, i);
    let body = with_entries(head, good);
    assert((body + foot).subrange(k, k + entry.len()) =~= body.subrange(k, k + entry.len()));
    assert(text::occurs_at(body + foot, entry, k));
}

/// The entry of a chunk stands among the entries.
proof fn lemma_entry_stands(head: Seq<char>, chunks: Seq<Scored>, i: int) -> (k: int)
    requires
        0 <= i < chunks.len(),
        !own_file(chunks[i].payload.file_path),
    ensures
        text::occurs_at(with_entries(head, chunks), context_entry(chunks[i].payload), k),
    decreases chunks.len(),
{
    let all = with_entries(head, chunks);
    let entry = context_entry(chunks[i].payload);
    let before = with_entries(head, chunks.drop_last());
    if i == chunks.len() - 1 {
        let k = before.len() as int;
        assert(all.subrange(k, k + entry.len()) =~= entry);
        k
    } else {
        assert(chunks.drop_last()[i] == chunks[i]);
        let k = lemma_entry_stands(head, chunks.drop_last(), i);
        assert(all.subrange(k, k + entry.len()) =~= before.subrange(k, k + entry.len()));
        k
    }
}

/// A score qualifies exactly where it lies between the single nearest to 0.35 and infinity,
/// by their bits: no negative one does, and nothing that is no number.
pub proof fn law_scores_qualify_from_the_threshold_on(bits: u32)
    ensures
        qualifies(bits) <==> 0x3eb33333 <= bits <= 0x7f800000,
{
    if bits < INFINITY_BITS {
        if bits < MIN_RETRIEVAL_SCORE_BITS {
            lemma_magnitude_increases(bits, MIN_RETRIEVAL_SCORE_BITS);
        } else if MIN_RETRIEVAL_SCORE_BITS < bits {
            lemma_magnitude_increases(MIN_RETRIEVAL_SCORE_BITS, bits);
        }
    }
}

/// The bits of a single that is not negative write its value: the fraction and, where there
/// is an exponent, a leading one before it, once for each step of the exponent doubled.
pub proof fn law_bits_write_the_value(exponent: nat, fraction: nat)
    requires
        fraction < 0x800000,
        exponent < 255,
    ensures
        exponent == 0 ==> magnitude(fraction as u32) == fraction,
        exponent == 1 ==> magnitude((0x800000 + fraction) as u32) == 0x800000 + fraction,
        exponent >= 1 && exponent < 254 ==> magnitude(
            (0x800000 * (exponent + 1) + fraction) as u32,
        ) == 2 * magnitude((0x800000 * exponent + fraction) as u32),
{
    if exponent >= 1 && exponent < 254 {
        let a = (0x800000 * exponent + fraction) as u32;
        let b = (0x800000 * (exponent + 1) + fraction) as u32;
        assert(a as nat / 0x800000 == exponent && a as nat % 0x800000 == fraction);
        assert(b as nat / 0x800000 == exponent + 1 && b as nat % 0x800000 == fraction);
        lemma_pow2_unfold(exponent);
        let p = pow2((exponent - 1) as nat);
        assert((0x800000 + fraction) * (2 * p) == 2 * ((0x800000 + fraction) * p))
            by (nonlinear_arith);
    }
    if exponent == 1 {
        vstd::arithmetic::power2::lemma2_to64();
        let a = (0x800000 + fraction) as u32;
        assert(a as nat / 0x800000 == 1 && a as nat % 0x800000 == fraction);
        assert(pow2(0) == 1);
    }
}

/// A file belongs to the agent exactly where the name of one of its parts stands in its path.
pub proof fn law_own_files_are_known_by_their_path(file_path: Seq<char>)
    ensures
        own_file(file_path) <==> {
            ||| exists|a: Seq<char>, b: Seq<char>|
                file_path == #[trigger] (a + "miller_core"@ + b)
            ||| exists|a: Seq<char>, b: Seq<char>|
                file_path == #[trigger] (a + "miller_parser"@ + b)
        },
{
    text::law_occurrence_splits_the_text(file_path, "miller_core"@);
    text::law_occurrence_splits_the_text(file_path, "miller_parser"@);
}

/// An entry of the context tells the file, the entity and the content, in this order and all
/// of them.
pub proof fn law_entry_tells_all(m: Metadata)
    ensures
        context_entry(m) == "// From File: "@ + m.file_path + "\n// Entity: "@ + m.entity_name
            + seq!['\n'] + m.content + seq!['\n', '\n'],
{
    reveal_strlit("\n");
    reveal_strlit("\n\n");
    assert("\n"@ =~= seq!['\n']);
    assert("\n\n"@ =~= seq!['\n', '\n']);
}

/// The context grows with the results: it is empty until one qualifies, and then is framed;
/// a further result adds its entry at the end of the frame where it qualifies and is not of
/// the agent itself, and changes nothing else.
pub proof fn law_context_grows_by_entries(chunks: Seq<Scored>, chunk: Scored)
    ensures
        context_block(Seq::empty()).len() == 0,
        !qualifies(chunk.score_bits) ==> context_block(chunks.push(chunk)) == context_block(chunks),
        qualifies(chunk.score_bits) ==> ({
            let entry = if own_file(chunk.payload.file_path) {
                Seq::empty()
            } else {
                context_entry(chunk.payload)
            };
            let foot = "---------------------------------------\n"@;
            exists|body: Seq<char>|
                {
                    &&& context_block(chunks.push(chunk)) == body + entry + foot
                    &&& context_block(chunks).len() > 0 ==> context_block(chunks)
                        == #[trigger] (body + foot)
                    &&& context_block(chunks).len() == 0 ==> body
                        == "\n--- RELEVANT EXISTING CONTEXT CODE ---\n"@
                }
        }),
{
    reveal(Seq::filter);
    let head = "\n--- RELEVANT EXISTING CONTEXT CODE ---\n"@;
    let foot = "---------------------------------------\n"@;
    reveal_strlit("---------------------------------------\n");
    let more = chunks.push(chunk);
    assert(more.drop_last() =~= chunks);
    let good = qualified(chunks);
    if qualifies(chunk.score_bits) {
        assert(qualified(more) == good.push(chunk));
        assert(good.push(chunk).drop_last() =~= good);
        let body = with_entries(head, good);
        let entry = if own_file(chunk.payload.file_path) {
            Seq::empty()
        } else {
            context_entry(chunk.payload)
        };
        assert(with_entries(head, good.push(chunk)) =~= body + entry);
        assert(context_block(more) == body + entry + foot);
        assert((body + foot).len() > 0);
    } else {
        assert(qualified(more) == good);
    }
}

} // verus!
