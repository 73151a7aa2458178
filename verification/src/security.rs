//! What is taken out of a model's answer, and which code is refused.

use vstd::prelude::*;

use crate::text;

verus! {

// ── Blocked code ─────────────────────────────────────────────────────────────

/// The texts that code must not hold.
pub open spec fn blocked_texts() -> Seq<Seq<char>> {
    seq![
        "remove_dir_all"@,
        "std::fs::remove_dir"@,
        "Command::new"@,
        "std::process::Command"@,
        "unsafe"@,
        "std::net"@,
        "TcpStream"@,
        "TcpListener"@,
        "std::os::unix::fs"@,
    ]
}

/// The texts that code must not hold.
pub fn blocked_patterns() -> (r: Vec<&'static str>)
    ensures
        text::slice_texts(r@) == blocked_texts(),
{
    let r: Vec<&'static str> =
        vec![
        "remove_dir_all",
        "std::fs::remove_dir",
        "Command::new",
        "std::process::Command",
        "unsafe",
        "std::net",
        "TcpStream",
        "TcpListener",
        "std::os::unix::fs",
    ];
    assert(text::slice_texts(r@) =~= blocked_texts());
    r
}

/// Whether `code` holds none of the blocked texts.
pub open spec fn safe(code: Seq<char>) -> bool {
    forall|i: int|
        0 <= i < blocked_texts().len() ==> !text::contains_text(code, #[trigger] blocked_texts()[i])
}

/// Whether `code` holds none of the blocked texts.
pub fn is_safe(code: &str) -> (r: bool)
    ensures
        r == safe(code@),
{
    let patterns: Vec<&'static str> = blocked_patterns();
    let mut i: usize = 0;
    while i < patterns.len()
        invariant
            i <= patterns@.len(),
            text::slice_texts(patterns@) == blocked_texts(),
            forall|k: int|
                0 <= k < i ==> !text::contains_text(code@, #[trigger] blocked_texts()[k]),
        decreases patterns@.len() - i,
    {
        assert(blocked_texts()[i as int] == patterns@[i as int]@);
        if text::contains(code, patterns[i]) {
            return false;
        }
        i = i + 1;
    }
    assert(blocked_texts().len() == patterns@.len());
    true
}

// ── Code blocks ──────────────────────────────────────────────────────────────

/// What stands in `s` between the first `open` and the first `close` after it.
pub open spec fn between(s: Seq<char>, open: Seq<char>, close: Seq<char>) -> Option<Seq<char>> {
    match text::first_at(s, open, 0) {
        Some(i) => match text::first_at(s, close, i + open.len()) {
            Some(j) => Some(s.subrange(i + open.len(), j)),
            None => None,
        },
        None => None,
    }
}

/// Whether `s` is a short text of backquotes and lower-case letters, each of which stands
/// for itself in a regular expression.
pub open spec fn plain(s: Seq<char>) -> bool {
    &&& 0 < s.len() <= 16
    &&& forall|i: int| 0 <= i < s.len() ==> s[i] == '`' || 'a' <= #[trigger] s[i] <= 'z'
}

/// The regular expression that captures what stands between `open` and `close`.
pub open spec fn fence_pattern(open: Seq<char>, close: Seq<char>) -> Seq<char> {
    "(?s)"@ + open + "(.*?)"@ + close
}

/// `Regex::new` on `pattern`, then `Regex::captures` on `text`, and the text of the first
/// group: for the text `open`, a lazy group of any characters, and the text `close`, the
/// leftmost match begins at the first `open` that a `close` follows, which is the first
/// `open` of all, and its group ends at the first `close` after that.
#[verifier::external_body]
fn first_group(pattern: &str, text: &str) -> (r: Option<String>)
    requires
        exists|open: Seq<char>, close: Seq<char>|
            plain(open) && plain(close) && pattern@ == #[trigger] fence_pattern(open, close),
    ensures
        forall|open: Seq<char>, close: Seq<char>|
            plain(open) && plain(close) && pattern@ == #[trigger] fence_pattern(open, close)
                ==> text::optional_text(r) == between(text@, open, close),
{
    let expression = regex::Regex::new(pattern).ok()?;
    expression.captures(text)?.get(1).map(|group| group.as_str().to_string())
}

/// The first code block of an answer: one marked as Rust, or else any.
pub open spec fn code_block(raw: Seq<char>) -> Option<Seq<char>> {
    match between(raw, "```rust"@, "```"@) {
        Some(block) => Some(block),
        None => between(raw, "```"@, "```"@),
    }
}

/// A code block with line feeds for line ends and without white space around it; none
/// where nothing is left.
pub open spec fn cleaned(block: Seq<char>) -> Option<Seq<char>> {
    let code = text::trimmed(text::replace_all(text::trimmed(block), "\r\n"@, "\n"@));
    if code.len() == 0 {
        None
    } else {
        Some(code)
    }
}

/// The code that an answer holds.
pub open spec fn sanitized(raw: Seq<char>) -> Option<Seq<char>> {
    match code_block(raw) {
        Some(block) => cleaned(block),
        None => None,
    }
}

/// A code block with line feeds for line ends and without white space around it; none
/// where nothing is left.
fn clean_block(block: &str) -> (r: Option<String>)
    ensures
        text::optional_text(r) == cleaned(block@),
{
    proof {
        reveal_strlit("\r\n");
    }
    let unified: String = text::replace(text::trim(block).as_str(), "\r\n", "\n");
    let code: String = text::trim(unified.as_str());
    if code.as_str().is_empty() {
        None
    } else {
        Some(code)
    }
}

/// Takes the code out of the fences of an answer.
pub fn sanitize_code(raw: &str) -> (r: Option<String>)
    ensures
        text::optional_text(r) == sanitized(raw@),
{
    proof {
        lemma_fence_patterns();
    }
    match first_group("(?s)```rust(.*?)```", raw) {
        Some(block) => clean_block(block.as_str()),
        None => match first_group("(?s)```(.*?)```", raw) {
            Some(block) => clean_block(block.as_str()),
            None => None,
        },
    }
}

/// The two expressions that `sanitize_code` uses capture what stands between fences.
proof fn lemma_fence_patterns()
    ensures
        plain("```rust"@),
        plain("```"@),
        "(?s)```rust(.*?)```"@ == fence_pattern("```rust"@, "```"@),
        "(?s)```(.*?)```"@ == fence_pattern("```"@, "```"@),
{
    reveal_strlit("```rust");
    reveal_strlit("```");
    reveal_strlit("(?s)");
    reveal_strlit("(.*?)");
    reveal_strlit("(?s)```rust(.*?)```");
    reveal_strlit("(?s)```(.*?)```");
    assert("(?s)```rust(.*?)```"@ =~= fence_pattern("```rust"@, "```"@));
    assert("(?s)```(.*?)```"@ =~= fence_pattern("```"@, "```"@));
}

// ── Laws ─────────────────────────────────────────────────────────────────────

/// The code that is taken out of an answer is not empty, has no white space around it,
/// and holds no fence.
pub proof fn law_sanitized_code_is_clean(raw: Seq<char>)
    ensures
        sanitized(raw) matches Some(code) ==> code.len() > 0 && text::is_trim(code)
            && !text::contains_text(code, "```"@),
{
    reveal_strlit("```");
    if let Some(code) = sanitized(raw) {
        let block = code_block(raw)->0;
        assert(!text::contains_text(block, "```"@)) by {
            if between(raw, "```rust"@, "```"@) is Some {
                lemma_no_close_inside(raw, "```rust"@, "```"@);
            } else {
                lemma_no_close_inside(raw, "```"@, "```"@);
            }
        }
        let first = text::trimmed(block);
        let unified = text::replace_all(first, "\r\n"@, "\n"@);
        let a = text::lemma_trimmed(block);
        let b = text::lemma_trimmed(unified);
        if text::contains_text(code, "```"@) {
            text::lemma_part_contains(unified, "```"@, b.0, b.1);
            reveal_strlit("\n");
            reveal_strlit("\r\n");
            assert forall|b: int| 0 < b < 3 implies !text::begins_with(
                "\n"@,
                #[trigger] "```"@.skip(b),
            ) by {
                if text::begins_with("\n"@, "```"@.skip(b)) {
                    assert("\n"@.subrange(0, 3 - b)[0] == "```"@.skip(b)[0]);
                }
            }
            text::lemma_replace_brings_in_nothing(first, "\r\n"@, "\n"@, "```"@, 0);
            text::lemma_part_contains(block, "```"@, a.0, a.1);
        }
    }
}

/// What stands between fences holds no closing fence.
proof fn lemma_no_close_inside(s: Seq<char>, open: Seq<char>, close: Seq<char>)
    requires
        close.len() > 0,
    ensures
        between(s, open, close) matches Some(block) ==> !text::contains_text(block, close),
{
    text::lemma_first_at(s, open, 0);
    if let Some(i) = text::first_at(s, open, 0) {
        let from = i + open.len();
        text::lemma_first_at(s, close, from);
        if let Some(j) = text::first_at(s, close, from) {
            let block = s.subrange(from, j);
            if text::contains_text(block, close) {
                let k = choose|k: int| #[trigger] text::occurs_at(block, close, k);
                text::lemma_part_occurs(s, close, from, j, k);
            }
        }
    }
}

/// An answer without a fence holds no code.
pub proof fn law_no_code_without_fence(raw: Seq<char>)
    requires
        !text::contains_text(raw, "```"@),
    ensures
        sanitized(raw) is None,
{
    text::lemma_first_at(raw, "```"@, 0);
    text::lemma_first_at(raw, "```rust"@, 0);
    if let Some(i) = text::first_at(raw, "```rust"@, 0) {
        reveal_strlit("```");
        reveal_strlit("```rust");
        assert(raw.subrange(i, i + 7)[0] == '`');
        assert(raw.subrange(i, i + 7)[1] == '`');
        assert(raw.subrange(i, i + 7)[2] == '`');
        assert(raw.subrange(i, i + 3) =~= "```"@);
        assert(text::occurs_at(raw, "```"@, i));
    }
}

/// An answer that wraps `code` in a fence marked as Rust.
pub open spec fn fenced(before: Seq<char>, code: Seq<char>, after: Seq<char>) -> Seq<char> {
    before + "```rust"@ + "\n"@ + code + "\n"@ + "```"@ + after
}

/// Code that an answer wraps in a fence as it was asked to is taken out unchanged. The
/// code has no white space around it, no fence in it and line feeds for line ends, and
/// no other fence marked as Rust stands before it.
pub proof fn law_fenced_code_is_recovered(before: Seq<char>, code: Seq<char>, after: Seq<char>)
    requires
        !text::contains_text(before, "```rust"@),
        code.len() > 0,
        text::is_trim(code),
        !text::contains_text(code, "```"@),
        !text::contains_text(code, "\r\n"@),
    ensures
        sanitized(fenced(before, code, after)) == Some(code),
{
    reveal_strlit("```");
    reveal_strlit("```rust");
    reveal_strlit("\n");
    let s = fenced(before, code, after);
    let b = before.len() as int;
    let from = b + 7;
    let to = from + 1 + code.len() + 1;
    text::lemma_first_at(s, "```rust"@, 0);
    assert(s.subrange(b, b + 7) =~= "```rust"@);
    assert(text::occurs_at(s, "```rust"@, b));
    let i = text::first_at(s, "```rust"@, 0)->0;
    if i < b {
        if i + 7 <= b {
            assert(before.subrange(i, i + 7) =~= s.subrange(i, i + 7));
            assert(text::occurs_at(before, "```rust"@, i));
        } else {
            // One of the letters would have to be a backquote of the fence.
            let m = if i + 3 >= b {
                3
            } else {
                b - i
            };
            assert(s.subrange(i, i + 7)[m] == s[i + m]);
            assert(s[i + m] == "```rust"@[i + m - b]);
            assert("```rust"@[m] != '`');
        }
    }
    assert(i == b);
    text::lemma_first_at(s, "```"@, from);
    assert(s.subrange(to, to + 3) =~= "```"@);
    assert(text::occurs_at(s, "```"@, to));
    let j = text::first_at(s, "```"@, from)->0;
    if j < to {
        assert(s.subrange(j, j + 3)[0] == s[j]);
        assert(s.subrange(j, j + 3)[1] == s[j + 1]);
        assert(s.subrange(j, j + 3)[2] == s[j + 2]);
        if j == from {
            assert(s[j] == '\n');
        } else if j + 3 <= to - 1 {
            assert(code.subrange(j - from - 1, j - from + 2) =~= s.subrange(j, j + 3));
            assert(text::occurs_at(code, "```"@, j - from - 1));
        } else {
            assert(s[to - 1] == '\n');
        }
    }
    assert(j == to);
    let block = s.subrange(from, to);
    assert(block =~= "\n"@ + code + "\n"@);
    text::lemma_trimmed_inside("\n"@, code, "\n"@);
    text::lemma_replace_nothing(code, "\r\n"@, "\n"@);
    text::lemma_trimmed_twice(code);
}

/// A part of safe code is safe.
pub proof fn law_part_of_safe_code_is_safe(code: Seq<char>, from: int, to: int)
    requires
        0 <= from <= to <= code.len(),
        safe(code),
    ensures
        safe(code.subrange(from, to)),
{
    assert forall|i: int| 0 <= i < blocked_texts().len() implies !text::contains_text(
        code.subrange(from, to),
        #[trigger] blocked_texts()[i],
    ) by {
        if text::contains_text(code.subrange(from, to), blocked_texts()[i]) {
            text::lemma_part_contains(code, blocked_texts()[i], from, to);
        }
    }
}

/// Code is refused exactly where one of the nine blocked texts stands in it, anywhere.
pub proof fn law_code_is_refused_for_blocked_texts(code: Seq<char>)
    ensures
        !safe(code) <==> {
            ||| exists|a: Seq<char>, b: Seq<char>| code == #[trigger] (a + "remove_dir_all"@ + b)
            ||| exists|a: Seq<char>, b: Seq<char>|
                code == #[trigger] (a + "std::fs::remove_dir"@ + b)
            ||| exists|a: Seq<char>, b: Seq<char>| code == #[trigger] (a + "Command::new"@ + b)
            ||| exists|a: Seq<char>, b: Seq<char>|
                code == #[trigger] (a + "std::process::Command"@ + b)
            ||| exists|a: Seq<char>, b: Seq<char>| code == #[trigger] (a + "unsafe"@ + b)
            ||| exists|a: Seq<char>, b: Seq<char>| code == #[trigger] (a + "std::net"@ + b)
            ||| exists|a: Seq<char>, b: Seq<char>| code == #[trigger] (a + "TcpStream"@ + b)
            ||| exists|a: Seq<char>, b: Seq<char>| code == #[trigger] (a + "TcpListener"@ + b)
            ||| exists|a: Seq<char>, b: Seq<char>| code == #[trigger] (a + "std::os::unix::fs"@ + b)
        },
{
    let blocked = blocked_texts();
    assert(blocked[0] == "remove_dir_all"@ && blocked[1] == "std::fs::remove_dir"@);
    assert(blocked[2] == "Command::new"@ && blocked[3] == "std::process::Command"@);
    assert(blocked[4] == "unsafe"@ && blocked[5] == "std::net"@);
    assert(blocked[6] == "TcpStream"@ && blocked[7] == "TcpListener"@);
    assert(blocked[8] == "std::os::unix::fs"@);
    text::law_occurrence_splits_the_text(code, "remove_dir_all"@);
    text::law_occurrence_splits_the_text(code, "std::fs::remove_dir"@);
    text::law_occurrence_splits_the_text(code, "Command::new"@);
    text::law_occurrence_splits_the_text(code, "std::process::Command"@);
    text::law_occurrence_splits_the_text(code, "unsafe"@);
    text::law_occurrence_splits_the_text(code, "std::net"@);
    text::law_occurrence_splits_the_text(code, "TcpStream"@);
    text::law_occurrence_splits_the_text(code, "TcpListener"@);
    text::law_occurrence_splits_the_text(code, "std::os::unix::fs"@);
}

/// What stands between the first opening fence and the first closing one after it is taken.
proof fn lemma_between_first_fences(
    before: Seq<char>,
    open: Seq<char>,
    block: Seq<char>,
    close: Seq<char>,
    after: Seq<char>,
)
    requires
        forall|a: Seq<char>, b: Seq<char>|
            before + open + block + close + after == #[trigger] (a + open + b) ==> before.len()
                <= a.len(),
        forall|a: Seq<char>, b: Seq<char>|
            block + close + after == #[trigger] (a + close + b) ==> block.len() <= a.len(),
    ensures
        between(before + open + block + close + after, open, close) == Some(block),
{
    let s = before + open + block + close + after;
    let n = before.len() as int;
    let from = n + open.len();
    let to = from + block.len();
    text::lemma_first_at(s, open, 0);
    assert(s.subrange(n, from) =~= open);
    assert(text::occurs_at(s, open, n));
    let i = text::first_at(s, open, 0)->0;
    assert(s =~= s.take(i) + open + s.skip(i + open.len()));
    assert(i == n);
    text::lemma_first_at(s, close, from);
    assert(s.subrange(to, to + close.len()) =~= close);
    assert(text::occurs_at(s, close, to));
    let j = text::first_at(s, close, from)->0;
    let rest = block + close + after;
    assert(rest =~= s.skip(from));
    let a = s.subrange(from, j);
    let b = s.skip(j + close.len());
    assert(s.subrange(j, j + close.len()) == close);
    assert forall|k: int| 0 <= k < rest.len() implies rest[k] == (a + close + b)[k] by {
        if j - from <= k < j - from + close.len() {
            assert(s.subrange(j, j + close.len())[k - (j - from)] == s[from + k]);
        }
    }
    assert(rest =~= a + close + b);
    assert(j == to);
    assert(s.subrange(from, to) =~= block);
}

/// The first block of an answer that is fenced as Rust holds the code, whatever stands before
/// and after it.
pub proof fn law_first_rust_block_is_taken(before: Seq<char>, block: Seq<char>, after: Seq<char>)
    requires
        forall|a: Seq<char>, b: Seq<char>|
            before + "```rust"@ + block + "```"@ + after == #[trigger] (a + "```rust"@ + b)
                ==> before.len() <= a.len(),
        forall|a: Seq<char>, b: Seq<char>|
            block + "```"@ + after == #[trigger] (a + "```"@ + b) ==> block.len() <= a.len(),
    ensures
        sanitized(before + "```rust"@ + block + "```"@ + after) == cleaned(block),
{
    lemma_between_first_fences(before, "```rust"@, block, "```"@, after);
}

/// Where no block of an answer is fenced as Rust, the first fenced block holds the code.
pub proof fn law_first_block_is_taken_without_a_rust_block(
    before: Seq<char>,
    block: Seq<char>,
    after: Seq<char>,
)
    requires
        !exists|a: Seq<char>, b: Seq<char>|
            before + "```"@ + block + "```"@ + after == #[trigger] (a + "```rust"@ + b),
        forall|a: Seq<char>, b: Seq<char>|
            before + "```"@ + block + "```"@ + after == #[trigger] (a + "```"@ + b) ==> before.len()
                <= a.len(),
        forall|a: Seq<char>, b: Seq<char>|
            block + "```"@ + after == #[trigger] (a + "```"@ + b) ==> block.len() <= a.len(),
    ensures
        sanitized(before + "```"@ + block + "```"@ + after) == cleaned(block),
{
    let s = before + "```"@ + block + "```"@ + after;
    text::law_occurrence_splits_the_text(s, "```rust"@);
    text::lemma_first_at(s, "```rust"@, 0);
    lemma_between_first_fences(before, "```"@, block, "```"@, after);
}

/// A block is cleaned of the white space around it and of the carriage returns before its
/// line feeds, and of nothing else; a block of white space alone holds no code.
pub proof fn law_block_is_only_cleaned(before: Seq<char>, code: Seq<char>, after: Seq<char>)
    requires
        forall|i: int| 0 <= i < before.len() ==> text::white_space(#[trigger] before[i]),
        forall|i: int| 0 <= i < after.len() ==> text::white_space(#[trigger] after[i]),
        text::is_trim(code),
    ensures
        code.len() > 0 ==> cleaned(before + code + after) == Some(
            text::replace_all(code, seq!['\r', '\n'], seq!['\n']),
        ),
        code.len() == 0 ==> cleaned(before + code + after) is None,
{
    reveal_strlit("\r\n");
    reveal_strlit("\n");
    assert("\r\n"@ =~= seq!['\r', '\n']);
    assert("\n"@ =~= seq!['\n']);
    let block = before + code + after;
    if code.len() > 0 {
        text::lemma_trimmed_inside(before, code, after);
        let unified = text::replace_all(code, "\r\n"@, "\n"@);
        lemma_unified_stays_trim(code);
        text::lemma_trimmed_twice(unified);
    } else {
        let r = text::lemma_trimmed(block);
        let t = text::trimmed(block);
        if t.len() > 0 {
            assert(t[0] == block[r.0]);
            if r.0 < before.len() {
                assert(block[r.0] == before[r.0]);
            } else {
                assert(block[r.0] == after[r.0 - before.len()]);
            }
        }
        text::lemma_first_at(t, "\r\n"@, 0);
        text::lemma_trimmed_twice(t);
    }
}

/// Where a text neither begins nor ends with white space, it does not once its line ends are
/// line feeds.
proof fn lemma_unified_stays_trim(code: Seq<char>)
    requires
        code.len() > 0,
        !text::white_space(code.last()),
    ensures
        ({
            let unified = text::replace_all(code, seq!['\r', '\n'], seq!['\n']);
            &&& unified.len() > 0
            &&& unified.last() == code.last()
            &&& !text::white_space(code[0]) ==> unified[0] == code[0]
        }),
    decreases code.len(),
{
    let p = seq!['\r', '\n'];
    let r = seq!['\n'];
    text::lemma_first_at(code, p, 0);
    if let Some(k) = text::first_at(code, p, 0) {
        assert(code.subrange(k, k + 2)[0] == code[k]);
        assert(code.subrange(k, k + 2)[1] == code[k + 1]);
        let rest = code.skip(k + 2);
        assert(k + 2 < code.len());
        assert(rest.last() == code.last());
        lemma_unified_stays_trim(rest);
    }
}

/// Where no block that is fenced as Rust is closed, the first fenced block holds the code.
pub proof fn law_first_block_is_taken_without_a_closed_rust_block(
    before: Seq<char>,
    block: Seq<char>,
    after: Seq<char>,
)
    requires
        forall|a: Seq<char>, b: Seq<char>|
            before + "```"@ + block + "```"@ + after == #[trigger] (a + "```rust"@ + b)
                ==> !text::contains_text(b, "```"@),
        forall|a: Seq<char>, b: Seq<char>|
            before + "```"@ + block + "```"@ + after == #[trigger] (a + "```"@ + b) ==> before.len()
                <= a.len(),
        forall|a: Seq<char>, b: Seq<char>|
            block + "```"@ + after == #[trigger] (a + "```"@ + b) ==> block.len() <= a.len(),
    ensures
        sanitized(before + "```"@ + block + "```"@ + after) == cleaned(block),
{
    let s = before + "```"@ + block + "```"@ + after;
    let (open, close) = ("```rust"@, "```"@);
    text::lemma_first_at(s, open, 0);
    if let Some(i) = text::first_at(s, open, 0) {
        let from = i + open.len();
        assert(s =~= s.take(i) + open + s.skip(from));
        text::lemma_first_at(s, close, from);
        if let Some(j) = text::first_at(s, close, from) {
            let rest = s.skip(from);
            assert(rest.subrange(j - from, j - from + close.len()) =~= s.subrange(
                j,
                j + close.len(),
            ));
            assert(text::occurs_at(rest, close, j - from));
        }
    }
    lemma_between_first_fences(before, close, block, close, after);
}

} // verus!
