//! The incremental scan of a project: which files are looked at, which of them have
//! changed, and what is remembered of them.

use vstd::prelude::*;
use vstd::utf8::encode_utf8;

use crate::ast_graph::{build_ast_graph, entities, graph_of, CodeNode, Entity};
use crate::text;

verus! {

// ── Files ────────────────────────────────────────────────────────────────────

/// The file in which a project's cache is kept.
pub const CACHE_FILE_NAME: &'static str = ".miller_cache.json";

/// Whether an entry of a project is left out together with what is below it: hidden
/// entries, build outputs and installed packages are, the root never is.
pub open spec fn ignored(depth: nat, file_name: Option<Seq<char>>) -> bool {
    depth > 0 && match file_name {
        Some(name) => text::begins_with(name, "."@) || name == "target"@ || name
            == "node_modules"@,
        None => false,
    }
}

/// Whether an entry of a project is left out together with what is below it, given its
/// depth below the root and its name, if that is text.
pub fn is_hidden_or_ignored(depth: usize, file_name: Option<&str>) -> (r: bool)
    ensures
        r == ignored(depth as nat, text::optional_slice_text(file_name)),
{
    if depth == 0 {
        return false;
    }
    match file_name {
        Some(name) => text::starts_with(name, ".") || text::same_text(name, "target")
            || text::same_text(name, "node_modules"),
        None => false,
    }
}

/// Whether a file is scanned: it has the extension of Rust and is not the agent's own
/// scratchpad.
pub open spec fn scanned(
    is_file: bool,
    extension: Option<Seq<char>>,
    file_name: Option<Seq<char>>,
) -> bool {
    &&& is_file
    &&& extension == Some("rs"@)
    &&& file_name != Some("sandbox.rs"@)
    &&& file_name != Some("sandbox_exec"@)
}

/// Whether an entry of a project is a file that is scanned, given its extension and its
/// name, each if it is text.
pub fn is_scanned(is_file: bool, extension: Option<&str>, file_name: Option<&str>) -> (r: bool)
    ensures
        r == scanned(
            is_file,
            text::optional_slice_text(extension),
            text::optional_slice_text(file_name),
        ),
{
    if !is_file {
        return false;
    }
    let rust: bool = match extension {
        Some(e) => text::same_text(e, "rs"),
        None => false,
    };
    let own: bool = match file_name {
        Some(name) => text::same_text(name, "sandbox.rs") || text::same_text(name, "sandbox_exec"),
        None => false,
    };
    rust && !own
}

// ── Hashes ───────────────────────────────────────────────────────────────────

/// The SHA-256 digest of `bytes`.
pub uninterp spec fn sha256(bytes: Seq<u8>) -> Seq<u8>;

/// `sha2::Sha256::digest`: the SHA-256 digest of `bytes`, which the name `sha256` stands
/// for, and which has 32 bytes.
#[verifier::external_body]
fn sha256_digest(bytes: &[u8]) -> (r: Vec<u8>)
    ensures
        r@ == sha256(bytes@),
        r@.len() == 32,
{
    <sha2::Sha256 as sha2::Digest>::digest(bytes).to_vec()
}

/// The hash of a file's content: the lower-case hexadecimal digits of its digest.
pub open spec fn content_hash(content: Seq<char>) -> Seq<char> {
    text::lower_hex(sha256(encode_utf8(content)))
}

/// The hash of a file's content: the lower-case hexadecimal digits of its digest.
pub fn calculate_sha256(content: &str) -> (r: String)
    ensures
        r@ == content_hash(content@),
        r@.len() == 64,
{
    text::lower_hex_of(&sha256_digest(content.as_bytes()))
}

// ── Cache ────────────────────────────────────────────────────────────────────

/// What is remembered of a file.
#[derive(Debug)]
pub struct FileState {
    pub file_path: String,
    pub sha256_hash: String,
    pub last_modified: u64,
}

impl Clone for FileState {
    fn clone(&self) -> (r: Self)
        ensures
            r == *self,
    {
        FileState {
            file_path: self.file_path.clone(),
            sha256_hash: self.sha256_hash.clone(),
            last_modified: self.last_modified,
        }
    }
}

/// What the state of a file says.
pub struct Remembered {
    pub file_path: Seq<char>,
    pub sha256_hash: Seq<char>,
    pub last_modified: u64,
}

impl View for FileState {
    type V = Remembered;

    open spec fn view(&self) -> Remembered {
        Remembered {
            file_path: self.file_path@,
            sha256_hash: self.sha256_hash@,
            last_modified: self.last_modified,
        }
    }
}

/// What is remembered of the files of a project, by their paths.
#[derive(Debug)]
pub struct CodebaseCache {
    files: Vec<(String, FileState)>,
}

/// Whether no two entries have the same path.
spec fn keys_differ(files: Seq<(String, FileState)>) -> bool {
    forall|i: int, j: int|
        0 <= i < j < files.len() ==> (#[trigger] files[i]).0@ != (#[trigger] files[j]).0@
}

/// What the entries say, by their paths.
pub open spec fn remembered(files: Seq<(String, FileState)>) -> Map<Seq<char>, Remembered>
    decreases files.len(),
{
    if files.len() == 0 {
        Map::empty()
    } else {
        remembered(files.drop_last()).insert(files.last().0@, files.last().1@)
    }
}

/// Entries with different paths are all remembered.
proof fn lemma_remembered(files: Seq<(String, FileState)>)
    requires
        keys_differ(files),
    ensures
        forall|i: int|
            0 <= i < files.len() ==> remembered(files).dom().contains((#[trigger] files[i]).0@)
                && remembered(files)[files[i].0@] == files[i].1@,
        forall|key: Seq<char>| #[trigger]
            remembered(files).dom().contains(key) ==> exists|i: int|
                0 <= i < files.len() && (#[trigger] files[i]).0@ == key,
    decreases files.len(),
{
    if files.len() > 0 {
        let rest = files.drop_last();
        assert forall|i: int, j: int| 0 <= i < j < rest.len() implies (#[trigger] rest[i]).0@ != (
        #[trigger] rest[j]).0@ by {
            assert(files[i].0@ != files[j].0@);
        }
        lemma_remembered(rest);
        let n = files.len() - 1;
        assert forall|i: int| 0 <= i < files.len() implies remembered(files).dom().contains(
            (#[trigger] files[i]).0@,
        ) && remembered(files)[files[i].0@] == files[i].1@ by {
            if i < n {
                assert(rest[i] == files[i]);
                assert(files[i].0@ != files[n].0@);
            }
        }
        assert forall|key: Seq<char>| #[trigger]
            remembered(files).dom().contains(key) implies exists|i: int|
            0 <= i < files.len() && (#[trigger] files[i]).0@ == key by {
            if key == files[n].0@ {
                assert(files[n].0@ == key);
            } else {
                assert(remembered(rest).dom().contains(key));
                let i = choose|i: int| 0 <= i < rest.len() && (#[trigger] rest[i]).0@ == key;
                assert(files[i] == rest[i]);
            }
        }
    }
}

impl View for CodebaseCache {
    type V = Map<Seq<char>, Remembered>;

    closed spec fn view(&self) -> Map<Seq<char>, Remembered> {
        remembered(self.files@)
    }
}

impl CodebaseCache {
    /// No path occurs twice.
    #[verifier::type_invariant]
    spec fn inv(self) -> bool {
        keys_differ(self.files@)
    }

    /// A cache of nothing.
    pub fn new() -> (r: Self)
        ensures
            r@ == Map::<Seq<char>, Remembered>::empty(),
    {
        CodebaseCache { files: Vec::new() }
    }

    /// The entries of the cache, each with its path.
    pub fn entries(&self) -> (r: &Vec<(String, FileState)>)
        ensures
            remembered(r@) == self@,
            forall|i: int, j: int|
                0 <= i < j < r@.len() ==> (#[trigger] r@[i]).0@ != (#[trigger] r@[j]).0@,
    {
        proof {
            use_type_invariant(self);
        }
        &self.files
    }

    /// What is remembered of the file at `path`.
    pub fn get<'a>(&'a self, path: &str) -> (r: Option<&'a FileState>)
        ensures
            match r {
                Some(state) => self@.dom().contains(path@) && self@[path@] == state@,
                None => !self@.dom().contains(path@),
            },
    {
        proof {
            use_type_invariant(self);
            lemma_remembered(self.files@);
        }
        let mut i: usize = 0;
        while i < self.files.len()
            invariant
                i <= self.files@.len(),
                forall|k: int| 0 <= k < i ==> (#[trigger] self.files@[k]).0@ != path@,
                forall|k: int|
                    0 <= k < self.files@.len() ==> self@.dom().contains(
                        (#[trigger] self.files@[k]).0@,
                    ) && self@[self.files@[k].0@] == self.files@[k].1@,
            decreases self.files@.len() - i,
        {
            if text::same_text(self.files[i].0.as_str(), path) {
                return Some(&self.files[i].1);
            }
            i = i + 1;
        }
        None
    }

    /// Remembers `state` for the file at `path`, in place of what was remembered of it.
    pub fn insert(&mut self, path: String, state: FileState)
        ensures
            final(self)@ == old(self)@.insert(path@, state@),
    {
        proof {
            use_type_invariant(&*self);
        }
        let ghost known = self.files@;
        let mut files: Vec<(String, FileState)> = Vec::new();
        std::mem::swap(&mut files, &mut self.files);
        proof {
            lemma_remembered(known);
        }
        let mut i: usize = 0;
        while i < files.len()
            invariant
                i <= files@.len(),
                files@ == known,
                keys_differ(known),
                remembered(known) == old(self)@,
                forall|k: int| 0 <= k < i ==> (#[trigger] files@[k]).0@ != path@,
            decreases files@.len() - i,
        {
            if text::same_text(files[i].0.as_str(), path.as_str()) {
                files.set(i, (path, state));
                proof {
                    lemma_remembered(known);
                    lemma_replaced(known, i as int, (path, state));
                    assert(keys_differ(files@)) by {
                        assert forall|a: int, b: int| 0 <= a < b < files@.len() implies (
                        #[trigger] files@[a]).0@ != (#[trigger] files@[b]).0@ by {
                            assert(known[a].0@ != known[b].0@);
                        }
                    }
                }
                self.files = files;
                return;
            }
            i = i + 1;
        }
        files.push((path, state));
        assert(files@.drop_last() =~= known);
        assert(keys_differ(files@)) by {
            assert forall|a: int, b: int| 0 <= a < b < files@.len() implies (#[trigger] files@[a]).0@
                != (#[trigger] files@[b]).0@ by {
                if b < known.len() {
                    assert(known[a].0@ != known[b].0@);
                } else {
                    assert(known[a].0@ != path@);
                }
            }
        }
        self.files = files;
    }
}

impl Clone for CodebaseCache {
    fn clone(&self) -> (r: Self)
        ensures
            r@ == self@,
    {
        proof {
            use_type_invariant(self);
        }
        let mut files: Vec<(String, FileState)> = Vec::new();
        let mut i: usize = 0;
        while i < self.files.len()
            invariant
                i <= self.files@.len(),
                files@ == self.files@.take(i as int),
            decreases self.files@.len() - i,
        {
            let entry: (String, FileState) = (self.files[i].0.clone(), self.files[i].1.clone());
            files.push(entry);
            assert(self.files@.take(i + 1) =~= self.files@.take(i as int).push(entry));
            i = i + 1;
        }
        assert(files@ =~= self.files@);
        CodebaseCache { files }
    }
}

impl Default for CodebaseCache {
    fn default() -> (r: Self)
        ensures
            r@ == Map::<Seq<char>, Remembered>::empty(),
    {
        CodebaseCache::new()
    }
}

/// Replacing the entry of a path replaces what is remembered for it.
proof fn lemma_replaced(files: Seq<(String, FileState)>, i: int, entry: (String, FileState))
    requires
        keys_differ(files),
        0 <= i < files.len(),
        files[i].0@ == entry.0@,
    ensures
        remembered(files.update(i, entry)) == remembered(files).insert(entry.0@, entry.1@),
    decreases files.len(),
{
    let rest = files.drop_last();
    let updated = files.update(i, entry);
    let n = files.len() - 1;
    if i == n {
        assert(updated.drop_last() =~= rest);
        assert(remembered(updated) =~= remembered(files).insert(entry.0@, entry.1@));
    } else {
        assert forall|a: int, b: int| 0 <= a < b < rest.len() implies (#[trigger] rest[a]).0@ != (
        #[trigger] rest[b]).0@ by {
            assert(files[a].0@ != files[b].0@);
        }
        lemma_replaced(rest, i, entry);
        assert(updated.drop_last() =~= rest.update(i, entry));
        assert(updated.last() == files.last());
        assert(files[i].0@ != files[n].0@);
        assert(remembered(updated) =~= remembered(files).insert(entry.0@, entry.1@));
    }
}

// ── Scan ─────────────────────────────────────────────────────────────────────

/// What was read of a file.
#[derive(Debug)]
pub struct Reading {
    pub content: String,
    /// When the file was last modified, in seconds since the epoch.
    pub modified: u64,
}

/// The state of a scan.
pub struct Scan {
    /// What was remembered before the scan.
    pub known: Map<Seq<char>, Remembered>,
    /// What is to be remembered after it.
    pub updated: Map<Seq<char>, Remembered>,
    /// The entities of the files that are new or have changed.
    pub changed: Seq<Entity>,
    /// How many files were looked at.
    pub checked: nat,
    /// How many of them have not changed.
    pub skipped: nat,
}

/// The scan of a project of which `known` is remembered, at its beginning.
pub open spec fn fresh_scan(known: Map<Seq<char>, Remembered>) -> Scan {
    Scan { known, updated: Map::empty(), changed: Seq::empty(), checked: 0, skipped: 0 }
}

/// Whether a file is new or has changed.
pub open spec fn needs_reindex(
    known: Map<Seq<char>, Remembered>,
    file_path: Seq<char>,
    hash: Seq<char>,
    modified: u64,
) -> bool {
    !(known.dom().contains(file_path) && known[file_path].sha256_hash == hash
        && known[file_path].last_modified == modified)
}

/// The scan after a file with this hash, and with these entities if it is indexed again.
pub open spec fn recorded(
    s: Scan,
    file_path: Seq<char>,
    hash: Seq<char>,
    modified: u64,
    found: Option<Seq<Entity>>,
) -> Scan {
    Scan {
        known: s.known,
        updated: s.updated.insert(
            file_path,
            Remembered { file_path, sha256_hash: hash, last_modified: modified },
        ),
        changed: match found {
            Some(found) => s.changed + found,
            None => s.changed,
        },
        checked: s.checked + 1,
        skipped: match found {
            Some(_) => s.skipped,
            None => s.skipped + 1,
        },
    }
}

/// The scan after a file that could be read; none where its source cannot be parsed.
pub open spec fn visited(
    s: Scan,
    file_path: Seq<char>,
    content: Seq<char>,
    modified: u64,
) -> Option<Scan> {
    let hash = content_hash(content);
    if needs_reindex(s.known, file_path, hash, modified) {
        match graph_of(file_path, content) {
            Some(found) => Some(recorded(s, file_path, hash, modified, Some(found))),
            None => None,
        }
    } else {
        Some(recorded(s, file_path, hash, modified, None))
    }
}

/// The scan after a file that could not be read.
pub open spec fn passed_over(s: Scan) -> Scan {
    Scan { checked: s.checked + 1, ..s }
}

/// The scan of a project.
#[derive(Debug)]
pub struct ProjectScan {
    known: CodebaseCache,
    updated: CodebaseCache,
    changed_nodes: Vec<CodeNode>,
    checked: usize,
    skipped: usize,
}

/// What a scan gives.
#[derive(Debug)]
pub struct ScanReport {
    /// The nodes of the files that are new or have changed.
    pub changed_nodes: Vec<CodeNode>,
    /// How many files were looked at.
    pub checked: usize,
    /// How many of them have not changed.
    pub skipped: usize,
    /// What is to be remembered of the project.
    pub cache: CodebaseCache,
}

impl View for ProjectScan {
    type V = Scan;

    closed spec fn view(&self) -> Scan {
        Scan {
            known: self.known@,
            updated: self.updated@,
            changed: entities(self.changed_nodes@),
            checked: self.checked as nat,
            skipped: self.skipped as nat,
        }
    }
}

impl ProjectScan {
    /// No more files are skipped than are looked at.
    #[verifier::type_invariant]
    spec fn inv(self) -> bool {
        self.skipped <= self.checked
    }

    /// The scan of a project of which `known` is remembered.
    pub fn new(known: CodebaseCache) -> (r: Self)
        ensures
            r@ == fresh_scan(known@),
    {
        let scan = ProjectScan {
            known,
            updated: CodebaseCache::new(),
            changed_nodes: Vec::new(),
            checked: 0,
            skipped: 0,
        };
        assert(scan@.changed =~= Seq::empty());
        scan
    }

    /// How many files were looked at.
    pub fn checked(&self) -> (r: usize)
        ensures
            r == self@.checked,
    {
        self.checked
    }

    /// Whether a file is new or has changed.
    pub fn is_changed(&self, file_path: &str, hash: &str, modified: u64) -> (r: bool)
        ensures
            r == needs_reindex(self@.known, file_path@, hash@, modified),
    {
        match self.known.get(file_path) {
            Some(state) => !(text::same_text(state.sha256_hash.as_str(), hash)
                && state.last_modified == modified),
            None => true,
        }
    }

    /// Takes in a file that could not be read.
    pub fn pass_over(&mut self)
        requires
            old(self)@.checked < usize::MAX,
        ensures
            final(self)@ == passed_over(old(self)@),
    {
        proof {
            use_type_invariant(&*self);
        }
        self.checked = self.checked + 1;
    }

    /// Takes in a file with this hash, and with these nodes if it is indexed again.
    pub fn record(
        &mut self,
        file_path: &str,
        hash: String,
        modified: u64,
        found: Option<Vec<CodeNode>>,
    )
        requires
            old(self)@.checked < usize::MAX,
        ensures
            final(self)@ == recorded(
                old(self)@,
                file_path@,
                hash@,
                modified,
                match found {
                    Some(nodes) => Some(entities(nodes@)),
                    None => None,
                },
            ),
    {
        proof {
            use_type_invariant(&*self);
        }
        let ghost before = self@;
        let mut updated: CodebaseCache = CodebaseCache::new();
        std::mem::swap(&mut updated, &mut self.updated);
        let mut changed_nodes: Vec<CodeNode> = Vec::new();
        std::mem::swap(&mut changed_nodes, &mut self.changed_nodes);
        self.checked = self.checked + 1;
        match found {
            Some(nodes) => {
                let mut nodes: Vec<CodeNode> = nodes;
                let ghost added = entities(nodes@);
                changed_nodes.append(&mut nodes);
                assert(entities(changed_nodes@) =~= before.changed + added);
            },
            None => {
                self.skipped = self.skipped + 1;
            },
        }
        updated.insert(
            file_path.to_owned(),
            FileState { file_path: file_path.to_owned(), sha256_hash: hash, last_modified: modified },
        );
        self.updated = updated;
        self.changed_nodes = changed_nodes;
    }

    /// Takes in a file that could be read: its nodes are extracted if it is new or has
    /// changed. Says no, and takes nothing in, where its source cannot be parsed.
    pub fn visit(&mut self, file_path: &str, reading: &Reading) -> (r: bool)
        requires
            old(self)@.checked < usize::MAX,
        ensures
            match visited(old(self)@, file_path@, reading.content@, reading.modified) {
                Some(after) => r && final(self)@ == after,
                None => !r && final(self)@ == old(self)@,
            },
    {
        let hash: String = calculate_sha256(reading.content.as_str());
        let found: Option<Vec<CodeNode>> = if self.is_changed(
            file_path,
            hash.as_str(),
            reading.modified,
        ) {
            match build_ast_graph(file_path, reading.content.as_str()) {
                Some(nodes) => Some(nodes),
                None => {
                    return false;
                },
            }
        } else {
            None
        };
        self.record(file_path, hash, reading.modified, found);
        true
    }

    /// What the scan gives.
    pub fn finish(self) -> (r: ScanReport)
        ensures
            entities(r.changed_nodes@) == self@.changed,
            r.checked == self@.checked,
            r.skipped == self@.skipped,
            r.cache@ == self@.updated,
    {
        ScanReport {
            changed_nodes: self.changed_nodes,
            checked: self.checked,
            skipped: self.skipped,
            cache: self.updated,
        }
    }
}

// ── Laws ─────────────────────────────────────────────────────────────────────

/// A file as a scan finds it.
pub struct Found {
    pub file_path: Seq<char>,
    pub content: Seq<char>,
    pub modified: u64,
}

/// A step of a scan.
pub enum ScanStep {
    /// A file that is read.
    Read(Found),
    /// A file that cannot be read.
    PassOver,
}

/// What is remembered of a file as a scan finds it.
pub open spec fn memory_of(f: Found) -> Remembered {
    Remembered {
        file_path: f.file_path,
        sha256_hash: content_hash(f.content),
        last_modified: f.modified,
    }
}

/// The scan after a step; none where a source cannot be parsed.
pub open spec fn stepped(s: Scan, step: ScanStep) -> Option<Scan> {
    match step {
        ScanStep::Read(f) => visited(s, f.file_path, f.content, f.modified),
        ScanStep::PassOver => Some(passed_over(s)),
    }
}

/// The scan after the steps `steps`, one after the other.
pub open spec fn stepped_all(s: Scan, steps: Seq<ScanStep>) -> Option<Scan>
    decreases steps.len(),
{
    if steps.len() == 0 {
        Some(s)
    } else {
        match stepped_all(s, steps.drop_last()) {
            Some(before) => stepped(before, steps.last()),
            None => None,
        }
    }
}

/// The files that are read in the steps `steps`, in order.
pub open spec fn read_files(steps: Seq<ScanStep>) -> Seq<Found>
    decreases steps.len(),
{
    if steps.len() == 0 {
        Seq::empty()
    } else {
        match steps.last() {
            ScanStep::Read(f) => read_files(steps.drop_last()).push(f),
            ScanStep::PassOver => read_files(steps.drop_last()),
        }
    }
}

/// Whether no two files have the same path.
pub open spec fn paths_differ(fs: Seq<Found>) -> bool {
    forall|i: int, j: int|
        0 <= i < j < fs.len() ==> (#[trigger] fs[i]).file_path != (#[trigger] fs[j]).file_path
}

/// A scan remembers every file that it reads, as it finds it, and nothing else; what it
/// went by stays as it was, it counts the files that cannot be read too, and every file
/// that is read is either skipped or extracted anew.
pub proof fn law_scan_remembers_what_it_finds(
    known: Map<Seq<char>, Remembered>,
    steps: Seq<ScanStep>,
)
    requires
        paths_differ(read_files(steps)),
    ensures
        stepped_all(fresh_scan(known), steps) matches Some(s) ==> {
            let fs = read_files(steps);
            &&& s.known == known
            &&& s.checked == steps.len()
            &&& s.skipped <= fs.len() <= s.checked
            &&& forall|i: int|
                0 <= i < fs.len() ==> s.updated.dom().contains((#[trigger] fs[i]).file_path)
                    && s.updated[fs[i].file_path] == memory_of(fs[i])
            &&& forall|path: Seq<char>| #[trigger]
                s.updated.dom().contains(path) ==> exists|i: int|
                    0 <= i < fs.len() && (#[trigger] fs[i]).file_path == path
        },
    decreases steps.len(),
{
    if steps.len() > 0 {
        let fs = read_files(steps);
        let rest = read_files(steps.drop_last());
        assert forall|i: int, j: int| 0 <= i < j < rest.len() implies (
        #[trigger] rest[i]).file_path != (#[trigger] rest[j]).file_path by {
            assert(rest[i] == fs[i] && rest[j] == fs[j]);
        }
        law_scan_remembers_what_it_finds(known, steps.drop_last());
        if let (Some(s), ScanStep::Read(f)) = (stepped_all(fresh_scan(known), steps), steps.last()) {
            let before = stepped_all(fresh_scan(known), steps.drop_last())->0;
            let n = fs.len() - 1;
            assert(fs[n] == f);
            assert forall|i: int| 0 <= i < fs.len() implies s.updated.dom().contains(
                (#[trigger] fs[i]).file_path,
            ) && s.updated[fs[i].file_path] == memory_of(fs[i]) by {
                if i < n {
                    assert(rest[i] == fs[i]);
                    assert(fs[i].file_path != fs[n].file_path);
                }
            }
            assert forall|path: Seq<char>| #[trigger]
                s.updated.dom().contains(path) implies exists|i: int|
                0 <= i < fs.len() && (#[trigger] fs[i]).file_path == path by {
                if path == fs[n].file_path {
                    assert(fs[n].file_path == path);
                } else {
                    assert(before.updated.dom().contains(path));
                    let i = choose|i: int| 0 <= i < rest.len() && (#[trigger] rest[i]).file_path == path;
                    assert(fs[i] == rest[i]);
                }
            }
        }
    }
}

/// Files that are remembered as they are found are skipped.
proof fn lemma_remembered_files_are_skipped(
    known: Map<Seq<char>, Remembered>,
    steps: Seq<ScanStep>,
)
    requires
        forall|i: int|
            0 <= i < read_files(steps).len() ==> known.dom().contains(
                (#[trigger] read_files(steps)[i]).file_path,
            ) && known[read_files(steps)[i].file_path] == memory_of(read_files(steps)[i]),
    ensures
        stepped_all(fresh_scan(known), steps) matches Some(s) && s.known == known && s.changed
            == Seq::<Entity>::empty() && s.skipped == read_files(steps).len() && s.checked
            == steps.len(),
    decreases steps.len(),
{
    if steps.len() > 0 {
        let fs = read_files(steps);
        let rest = read_files(steps.drop_last());
        assert forall|i: int| 0 <= i < rest.len() implies known.dom().contains(
            (#[trigger] rest[i]).file_path,
        ) && known[rest[i].file_path] == memory_of(rest[i]) by {
            assert(rest[i] == fs[i]);
        }
        lemma_remembered_files_are_skipped(known, steps.drop_last());
        if let ScanStep::Read(f) = steps.last() {
            assert(fs[fs.len() - 1] == f);
        }
    }
}

/// A second scan of a project in which nothing has changed skips every file that it reads,
/// extracts nothing, and remembers the same, even where other files cannot be read.
pub proof fn law_unchanged_project_is_skipped(
    known: Map<Seq<char>, Remembered>,
    first_steps: Seq<ScanStep>,
    second_steps: Seq<ScanStep>,
)
    requires
        paths_differ(read_files(first_steps)),
        read_files(second_steps) == read_files(first_steps),
        stepped_all(fresh_scan(known), first_steps) is Some,
    ensures
        ({
            let first = stepped_all(fresh_scan(known), first_steps)->0;
            &&& stepped_all(fresh_scan(first.updated), second_steps) matches Some(second)
            &&& second.skipped == read_files(second_steps).len()
            &&& second.checked == second_steps.len()
            &&& second.changed == Seq::<Entity>::empty()
            &&& second.updated == first.updated
        }),
{
    let fs = read_files(first_steps);
    law_scan_remembers_what_it_finds(known, first_steps);
    let first = stepped_all(fresh_scan(known), first_steps)->0;
    lemma_remembered_files_are_skipped(first.updated, second_steps);
    law_scan_remembers_what_it_finds(first.updated, second_steps);
    let second = stepped_all(fresh_scan(first.updated), second_steps)->0;
    assert forall|path: Seq<char>| first.updated.dom().contains(path)
        == second.updated.dom().contains(path) by {
        if first.updated.dom().contains(path) {
            let i = choose|i: int| 0 <= i < fs.len() && (#[trigger] fs[i]).file_path == path;
            assert(second.updated.dom().contains(fs[i].file_path));
        }
        if second.updated.dom().contains(path) {
            let i = choose|i: int| 0 <= i < fs.len() && (#[trigger] fs[i]).file_path == path;
            assert(first.updated.dom().contains(fs[i].file_path));
        }
    }
    assert forall|path: Seq<char>| first.updated.dom().contains(path) implies first.updated[path]
        == second.updated[path] by {
        let i = choose|i: int| 0 <= i < fs.len() && (#[trigger] fs[i]).file_path == path;
        assert(first.updated[fs[i].file_path] == memory_of(fs[i]));
        assert(second.updated[fs[i].file_path] == memory_of(fs[i]));
    }
    assert(second.updated =~= first.updated);
}

/// A file whose content hash or modification time differs from what is remembered of it,
/// or of which nothing is remembered, is extracted anew.
pub proof fn law_changed_file_is_extracted(s: Scan, f: Found)
    requires
        graph_of(f.file_path, f.content) is Some,
        !s.known.dom().contains(f.file_path) || s.known[f.file_path].sha256_hash != content_hash(
            f.content,
        ) || s.known[f.file_path].last_modified != f.modified,
    ensures
        visited(s, f.file_path, f.content, f.modified) matches Some(after) && after.changed
            == s.changed + graph_of(f.file_path, f.content)->0 && after.skipped == s.skipped,
{
}

/// What is left out of a scan are the entries below the root that are hidden, that hold build
/// outputs or that hold installed packages, and no others.
pub proof fn law_only_these_entries_are_left_out(depth: nat, name: Seq<char>)
    ensures
        ignored(depth, Some(name)) <==> depth > 0 && (name.len() > 0 && name[0] == '.' || name
            == "target"@ || name == "node_modules"@),
        !ignored(depth, None),
{
    reveal_strlit(".");
    if text::begins_with(name, "."@) {
        assert(name.subrange(0, 1)[0] == name[0]);
    }
    if name.len() > 0 && name[0] == '.' {
        assert(name.subrange(0, 1) =~= "."@);
    }
}

/// What is scanned are the files with the extension of Rust, but for the agent's own two.
pub proof fn law_rust_files_are_scanned(
    is_file: bool,
    extension: Option<Seq<char>>,
    name: Option<Seq<char>>,
)
    ensures
        scanned(is_file, extension, name) <==> is_file && extension == Some(seq!['r', 's']) && !(
        name == Some("sandbox.rs"@) || name == Some("sandbox_exec"@)),
{
    reveal_strlit("rs");
    assert("rs"@ =~= seq!['r', 's']);
}

/// The hash of a content is its SHA-256 digest, byte by byte in hexadecimal.
pub proof fn law_hash_is_the_digest(content: Seq<char>, i: int)
    requires
        0 <= i < sha256(encode_utf8(content)).len(),
    ensures
        content_hash(content).len() == 2 * sha256(encode_utf8(content)).len(),
        16 * text::hex_value(content_hash(content)[2 * i]) + text::hex_value(
            content_hash(content)[2 * i + 1],
        ) == sha256(encode_utf8(content))[i],
{
    text::law_hexadecimal_writes_the_bytes(sha256(encode_utf8(content)), i);
}

/// A file whose content hash and modification time are those that are remembered of it is
/// skipped, and counted as that: nothing is extracted of it, whatever else is in it.
pub proof fn law_unchanged_file_is_skipped(s: Scan, f: Found)
    requires
        s.known.dom().contains(f.file_path),
        s.known[f.file_path].sha256_hash == content_hash(f.content),
        s.known[f.file_path].last_modified == f.modified,
    ensures
        visited(s, f.file_path, f.content, f.modified) matches Some(after) && after.changed
            == s.changed && after.skipped == s.skipped + 1,
{
}

/// Every file that is read is counted and remembered as it is found, changed or not, and the
/// rest of what is remembered stays; where its source cannot be parsed, the scan does not go
/// on.
pub proof fn law_visited_file_is_remembered(s: Scan, f: Found)
    ensures
        visited(s, f.file_path, f.content, f.modified) matches Some(after) ==> {
            &&& after.known == s.known
            &&& after.checked == s.checked + 1
            &&& after.updated == s.updated.insert(
                f.file_path,
                Remembered {
                    file_path: f.file_path,
                    sha256_hash: content_hash(f.content),
                    last_modified: f.modified,
                },
            )
        },
        visited(s, f.file_path, f.content, f.modified) is None <==> graph_of(f.file_path, f.content)
            is None && !(s.known.dom().contains(f.file_path) && s.known[f.file_path].sha256_hash
            == content_hash(f.content) && s.known[f.file_path].last_modified == f.modified),
        passed_over(s).checked == s.checked + 1,
        passed_over(s).skipped == s.skipped,
        passed_over(s).changed == s.changed,
        passed_over(s).updated == s.updated,
        passed_over(s).known == s.known,
{
}

/// Entries with different paths are all remembered, each with what it says, and nothing else
/// is.
pub proof fn law_entries_are_what_is_remembered(files: Seq<(String, FileState)>, path: Seq<char>)
    requires
        forall|i: int, j: int|
            0 <= i < j < files.len() ==> (#[trigger] files[i]).0@ != (#[trigger] files[j]).0@,
    ensures
        remembered(files).dom().contains(path) <==> exists|i: int|
            0 <= i < files.len() && (#[trigger] files[i]).0@ == path,
        forall|i: int|
            0 <= i < files.len() ==> ({
                let state = remembered(files)[(#[trigger] files[i]).0@];
                &&& state.file_path == files[i].1.file_path@
                &&& state.sha256_hash == files[i].1.sha256_hash@
                &&& state.last_modified == files[i].1.last_modified
            }),
{
    lemma_remembered(files);
}

} // verus!
