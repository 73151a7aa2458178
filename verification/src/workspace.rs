//! Where code is written: into a file of a project, or onto the scratchpad.

use vstd::prelude::*;

use crate::text;

verus! {

/// The scratchpad file.
pub const TARGET_FILE: &'static str = "sandbox.rs";

// ── Hints ────────────────────────────────────────────────────────────────────

/// The file that a line of an answer names as its target.
pub open spec fn line_hint(line: Seq<char>) -> Option<Seq<char>> {
    match text::without_prefix(text::trimmed(line), "// TARGET_FILE:"@) {
        Some(rest) => if text::trimmed(rest).len() > 0 {
            Some(text::trimmed(rest))
        } else {
            None
        },
        None => None,
    }
}

/// The first file that the lines name as their target.
pub open spec fn first_hint(lines: Seq<Seq<char>>) -> Option<Seq<char>>
    decreases lines.len(),
{
    if lines.len() == 0 {
        None
    } else {
        match line_hint(lines[0]) {
            Some(path) => Some(path),
            None => first_hint(lines.skip(1)),
        }
    }
}

/// The file that a line of an answer names as its target.
fn hint_in_line(line: &str) -> (r: Option<String>)
    ensures
        text::optional_text(r) == line_hint(line@),
{
    match text::strip_prefix(text::trim(line).as_str(), "// TARGET_FILE:") {
        Some(rest) => {
            let path: String = text::trim(rest.as_str());
            if path.as_str().is_empty() {
                None
            } else {
                Some(path)
            }
        },
        None => None,
    }
}

/// Extracts the path of the target file from an answer, which names it in a comment of
/// the form `// TARGET_FILE: src/some_module.rs`. Without such a comment there is none,
/// and the code goes onto the scratchpad.
pub fn extract_target_file_hint(ai_response: &str) -> (r: Option<String>)
    ensures
        text::optional_text(r) == first_hint(text::lines_of(ai_response@)),
{
    let lines: Vec<String> = text::lines(ai_response);
    let ghost all = text::texts(lines@);
    let mut i: usize = 0;
    assert(all.skip(0) =~= all);
    while i < lines.len()
        invariant
            i <= lines@.len(),
            all == text::texts(lines@),
            all == text::lines_of(ai_response@),
            first_hint(all.skip(i as int)) == first_hint(all),
        decreases lines@.len() - i,
    {
        assert(all.skip(i as int)[0] == lines@[i as int]@);
        assert(all.skip(i as int).skip(1) =~= all.skip(i + 1));
        let hint: Option<String> = hint_in_line(lines[i].as_str());
        if hint.is_some() {
            return hint;
        }
        i = i + 1;
    }
    None
}

// ── Targets ──────────────────────────────────────────────────────────────────

/// Where code is written.
#[derive(Debug)]
pub enum Target {
    /// Into the file `relative` of the project at `root`.
    Workspace { root: String, relative: String },
    /// Onto the scratchpad.
    Scratchpad,
}

/// What a target says: the project and the file in it, or nothing for the scratchpad.
pub open spec fn target_of(target: Target) -> Option<(Seq<char>, Seq<char>)> {
    match target {
        Target::Workspace { root, relative } => Some((root@, relative@)),
        Target::Scratchpad => None,
    }
}

/// A hint without the `/` and the `./` at its beginning, however they follow each other.
pub open spec fn relative_path(hint: Seq<char>) -> Seq<char>
    decreases hint.len(),
{
    if hint.len() >= 1 && hint[0] == '/' {
        relative_path(hint.skip(1))
    } else if hint.len() >= 2 && hint[0] == '.' && hint[1] == '/' {
        relative_path(hint.skip(2))
    } else {
        hint
    }
}

/// How many characters of a path stand before its first slash.
pub open spec fn component_length(path: Seq<char>) -> int
    decreases path.len(),
{
    if path.len() == 0 || path[0] == '/' {
        0
    } else {
        1 + component_length(path.skip(1))
    }
}

/// How deep one is after a component of a path, from `depth` levels below the root.
pub open spec fn depth_after(component: Seq<char>, depth: int) -> int {
    if component == ".."@ {
        depth - 1
    } else if component.len() == 0 || component == "."@ {
        depth
    } else {
        depth + 1
    }
}

/// Whether a path, walked from a directory `depth` levels below the root, climbs above
/// the root.
pub open spec fn climbs(path: Seq<char>, depth: int) -> bool
    decreases path.len(),
{
    proof {
        lemma_component_bounds(path);
    }
    let n = component_length(path);
    let below = depth_after(path.take(n), depth);
    below < 0 || (n < path.len() && climbs(path.skip(n + 1), below))
}

/// Where one is after a component of a path, from the directory with the names `at`; none
/// where the names do not tell. Above the top of the file system there is nothing.
pub open spec fn place_after(component: Seq<char>, at: Seq<Seq<char>>, absolute: bool) -> Option<
    Seq<Seq<char>>,
> {
    if component == ".."@ {
        if at.len() > 0 {
            Some(at.drop_last())
        } else if absolute {
            Some(at)
        } else {
            None
        }
    } else if component.len() == 0 || component == "."@ {
        Some(at)
    } else {
        Some(at.push(component))
    }
}

/// Where a path leads, walked from the directory with the names `at`; none where the names
/// do not tell.
pub open spec fn walked(path: Seq<char>, at: Seq<Seq<char>>, absolute: bool) -> Option<
    Seq<Seq<char>>,
>
    decreases path.len(),
{
    proof {
        lemma_component_bounds(path);
    }
    let n = component_length(path);
    match place_after(path.take(n), at, absolute) {
        Some(next) => if n < path.len() {
            walked(path.skip(n + 1), next, absolute)
        } else {
            Some(next)
        },
        None => None,
    }
}

/// Whether a path starts at the top of the file system.
pub open spec fn is_absolute(path: Seq<char>) -> bool {
    path.len() > 0 && path[0] == '/'
}

/// The names of the directory at `root`, from the top of the file system or from the
/// working directory; none where `root` does not tell them.
pub open spec fn place(root: Seq<char>) -> Option<Seq<Seq<char>>> {
    walked(root, Seq::empty(), is_absolute(root))
}

/// What is left of a path, walked from `at`, once it comes to `home` to stay; none where it
/// does not.
pub open spec fn rest_at_home(
    path: Seq<char>,
    at: Seq<Seq<char>>,
    home: Seq<Seq<char>>,
    absolute: bool,
) -> Option<Seq<char>>
    decreases path.len(),
{
    proof {
        lemma_component_bounds(path);
    }
    let n = component_length(path);
    if at == home && !climbs(path, 0) {
        Some(path)
    } else {
        match place_after(path.take(n), at, absolute) {
            Some(next) => if n < path.len() {
                rest_at_home(path.skip(n + 1), next, home, absolute)
            } else if next == home {
                Some(Seq::empty())
            } else {
                None
            },
            None => None,
        }
    }
}

/// The part of a hint that lies inside the project at `root`: all of it where it does not
/// climb, and where it leaves the project and comes back to it by name, what follows.
pub open spec fn part_inside(root: Seq<char>, hint: Seq<char>) -> Option<Seq<char>> {
    if !climbs(hint, 0) {
        Some(hint)
    } else {
        match place(root) {
            Some(home) => rest_at_home(hint, home, home, is_absolute(root)),
            None => None,
        }
    }
}

/// Where code goes, given the project and the hint of the answer: to the hinted file, and
/// onto the scratchpad where there is no project, no hint, or a hint that leads out of the
/// project.
pub open spec fn mapped_target(
    workspace_root: Option<Seq<char>>,
    target_hint: Option<Seq<char>>,
) -> Option<(Seq<char>, Seq<char>)> {
    match (workspace_root, target_hint) {
        (Some(root), Some(hint)) => match part_inside(root, hint) {
            Some(part) => Some((root, relative_path(part))),
            None => None,
        },
        _ => None,
    }
}

/// The first component of a path is a part of it.
pub proof fn lemma_component_bounds(path: Seq<char>)
    ensures
        0 <= component_length(path) <= path.len(),
    decreases path.len(),
{
    if path.len() > 0 && path[0] != '/' {
        lemma_component_bounds(path.skip(1));
    }
}

/// A hint without the `/` and the `./` at its beginning, however they follow each other.
fn relative_of(hint: &str) -> (r: String)
    ensures
        r@ == relative_path(hint@),
{
    let cs: Vec<char> = text::chars_of(hint);
    let n: usize = cs.len();
    let mut from: usize = 0;
    assert(hint@.skip(0) =~= hint@);
    while from < n && (cs[from] == '/' || (n - from >= 2 && cs[from] == '.' && cs[from + 1] == '/'))
        invariant
            n == cs@.len(),
            cs@ == hint@,
            from <= n,
            relative_path(hint@.skip(from as int)) == relative_path(hint@),
        decreases n - from,
    {
        assert(hint@.skip(from as int).skip(1) =~= hint@.skip(from + 1));
        if cs[from] == '/' {
            from = from + 1;
        } else {
            assert(hint@.skip(from as int).skip(2) =~= hint@.skip(from + 2));
            from = from + 2;
        }
    }
    assert(hint@.skip(from as int) =~= hint@.subrange(from as int, n as int));
    text::string_of(&cs, from, n)
}

/// A path is split at its first slash.
proof fn lemma_component_length(path: Seq<char>, n: int)
    requires
        0 <= n <= path.len(),
        forall|k: int| 0 <= k < n ==> path[k] != '/',
        n < path.len() ==> path[n] == '/',
    ensures
        component_length(path) == n,
    decreases path.len(),
{
    if n > 0 {
        let rest = path.skip(1);
        assert forall|k: int| 0 <= k < n - 1 implies rest[k] != '/' by {
            assert(rest[k] == path[k + 1]);
        }
        lemma_component_length(rest, n - 1);
    }
}

/// What a component of a path does.
#[derive(Clone, Copy, PartialEq, Eq, Structural)]
enum Pace {
    Up,
    Stay,
    Down,
}

/// Where the component of `path` that begins at `from` ends.
fn component_end(path: &Vec<char>, from: usize) -> (to: usize)
    requires
        from <= path@.len(),
    ensures
        from <= to <= path@.len(),
        component_length(path@.skip(from as int)) == to - from,
        path@.skip(from as int).take(to - from) == path@.subrange(from as int, to as int),
{
    let n: usize = path.len();
    let mut to: usize = from;
    while to < n && path[to] != '/'
        invariant
            n == path@.len(),
            from <= to <= n,
            forall|k: int| from <= k < to ==> path@[k] != '/',
        decreases n - to,
    {
        to = to + 1;
    }
    proof {
        let rest = path@.skip(from as int);
        assert forall|k: int| 0 <= k < to - from implies rest[k] != '/' by {
            assert(rest[k] == path@[from + k]);
        }
        lemma_component_length(rest, to - from);
        assert(rest.take(to - from) =~= path@.subrange(from as int, to as int));
    }
    to
}

/// What the component of `path` from `from` up to `to` does.
fn pace_of(path: &Vec<char>, from: usize, to: usize) -> (r: Pace)
    requires
        from <= to <= path@.len(),
    ensures
        ({
            let component = path@.subrange(from as int, to as int);
            r == if component == ".."@ {
                Pace::Up
            } else if component.len() == 0 || component == "."@ {
                Pace::Stay
            } else {
                Pace::Down
            }
        }),
{
    let component: String = text::string_of(path, from, to);
    if text::same_text(component.as_str(), "..") {
        Pace::Up
    } else if to == from || text::same_text(component.as_str(), ".") {
        Pace::Stay
    } else {
        Pace::Down
    }
}

/// Whether the rest of `path` from `start` on climbs above the directory that it is walked
/// from.
fn leads_out(path: &Vec<char>, start: usize) -> (r: bool)
    requires
        start <= path@.len(),
    ensures
        r == climbs(path@.skip(start as int), 0),
{
    let n: usize = path.len();
    let mut depth: usize = 0;
    let mut from: usize = start;
    loop
        invariant
            n == path@.len(),
            start <= from <= n,
            depth <= from,
            climbs(path@.skip(start as int), 0) == climbs(path@.skip(from as int), depth as int),
        decreases n - from,
    {
        let to: usize = component_end(path, from);
        match pace_of(path, from, to) {
            Pace::Up => {
                if depth == 0 {
                    return true;
                }
                depth = depth - 1;
            },
            Pace::Stay => {},
            Pace::Down => {
                assert(to > from);
                depth = depth + 1;
            },
        }
        if to == n {
            return false;
        }
        assert(path@.skip(from as int).skip(to - from + 1) =~= path@.skip(to + 1));
        from = to + 1;
    }
}

/// Goes where the component of `path` from `from` up to `to` leads, and says whether the
/// names tell where that is.
fn go(at: &mut Vec<String>, path: &Vec<char>, from: usize, to: usize, absolute: bool) -> (r: bool)
    requires
        from <= to <= path@.len(),
    ensures
        match place_after(
            path@.subrange(from as int, to as int),
            text::texts(old(at)@),
            absolute,
        ) {
            Some(next) => r && text::texts(final(at)@) == next,
            None => !r,
        },
{
    let ghost before = text::texts(at@);
    match pace_of(path, from, to) {
        Pace::Up => {
            if at.len() > 0 {
                at.pop();
                assert(text::texts(at@) =~= before.drop_last());
                true
            } else {
                absolute
            }
        },
        Pace::Stay => true,
        Pace::Down => {
            at.push(text::string_of(path, from, to));
            assert(text::texts(at@) =~= before.push(path@.subrange(from as int, to as int)));
            true
        },
    }
}

/// Whether two directories have the same names.
fn same_place(a: &Vec<String>, b: &Vec<String>) -> (r: bool)
    ensures
        r == (text::texts(a@) == text::texts(b@)),
{
    if a.len() != b.len() {
        assert(text::texts(a@).len() != text::texts(b@).len());
        return false;
    }
    let mut i: usize = 0;
    while i < a.len()
        invariant
            a@.len() == b@.len(),
            i <= a@.len(),
            forall|k: int| 0 <= k < i ==> (#[trigger] a@[k])@ == b@[k]@,
        decreases a@.len() - i,
    {
        if !text::same_text(a[i].as_str(), b[i].as_str()) {
            assert(text::texts(a@)[i as int] != text::texts(b@)[i as int]);
            return false;
        }
        i = i + 1;
    }
    assert(text::texts(a@) =~= text::texts(b@));
    true
}

/// The names of the directory at `root`; none where `root` does not tell them.
fn place_of(root: &Vec<char>) -> (r: Option<Vec<String>>)
    ensures
        match r {
            Some(names) => place(root@) == Some(text::texts(names@)),
            None => place(root@) is None,
        },
{
    let n: usize = root.len();
    let absolute: bool = n > 0 && root[0] == '/';
    let mut at: Vec<String> = Vec::new();
    let mut from: usize = 0;
    proof {
        assert(text::texts(at@) =~= Seq::empty());
        assert(root@.skip(0) =~= root@);
    }
    loop
        invariant
            n == root@.len(),
            from <= n,
            absolute == is_absolute(root@),
            place(root@) == walked(root@.skip(from as int), text::texts(at@), absolute),
        decreases n - from,
    {
        let to: usize = component_end(root, from);
        if !go(&mut at, root, from, to, absolute) {
            return None;
        }
        if to == n {
            return Some(at);
        }
        assert(root@.skip(from as int).skip(to - from + 1) =~= root@.skip(to + 1));
        from = to + 1;
    }
}

/// Where in `path`, walked from `home`, what is left begins once it comes to `home` to stay.
fn stays_from(path: &Vec<char>, home: &Vec<String>, absolute: bool) -> (r: Option<usize>)
    ensures
        match r {
            Some(from) => from <= path@.len() && rest_at_home(
                path@,
                text::texts(home@),
                text::texts(home@),
                absolute,
            ) == Some(path@.skip(from as int)),
            None => rest_at_home(
                path@,
                text::texts(home@),
                text::texts(home@),
                absolute,
            ) is None,
        },
{
    let n: usize = path.len();
    let mut at: Vec<String> = text::copies(home);
    let mut from: usize = 0;
    assert(path@.skip(0) =~= path@);
    loop
        invariant
            n == path@.len(),
            from <= n,
            rest_at_home(path@, text::texts(home@), text::texts(home@), absolute) == rest_at_home(
                path@.skip(from as int),
                text::texts(at@),
                text::texts(home@),
                absolute,
            ),
        decreases n - from,
    {
        if same_place(&at, home) && !leads_out(path, from) {
            return Some(from);
        }
        let to: usize = component_end(path, from);
        if !go(&mut at, path, from, to, absolute) {
            return None;
        }
        if to == n {
            assert(path@.skip(n as int) =~= Seq::empty());
            return if same_place(&at, home) {
                Some(n)
            } else {
                None
            };
        }
        assert(path@.skip(from as int).skip(to - from + 1) =~= path@.skip(to + 1));
        from = to + 1;
    }
}

/// The part of a hint that lies inside the project at `root`.
fn inside_of(root: &str, hint: &str) -> (r: Option<String>)
    ensures
        text::optional_text(r) == part_inside(root@, hint@),
{
    let path: Vec<char> = text::chars_of(hint);
    assert(path@.skip(0) =~= path@);
    if !leads_out(&path, 0) {
        return Some(hint.to_owned());
    }
    let base: Vec<char> = text::chars_of(root);
    let home: Vec<String> = match place_of(&base) {
        Some(home) => home,
        None => {
            return None;
        },
    };
    let absolute: bool = base.len() > 0 && base[0] == '/';
    match stays_from(&path, &home, absolute) {
        Some(from) => {
            assert(path@.subrange(from as int, path@.len() as int) =~= path@.skip(from as int));
            Some(text::string_of(&path, from, path.len()))
        },
        None => None,
    }
}

/// Maps code to where it is written: to the hinted file where there is a project and a
/// hint that leads into it, and else onto the scratchpad.
pub fn map_target(workspace_root: Option<&str>, target_hint: Option<&str>) -> (r: Target)
    ensures
        target_of(r) == mapped_target(
            text::optional_slice_text(workspace_root),
            text::optional_slice_text(target_hint),
        ),
        target_of(r) matches Some(p) ==> !text::begins_with(p.1, "/"@) && !climbs(p.1, 0),
{
    match (workspace_root, target_hint) {
        (Some(root), Some(hint)) => match inside_of(root, hint) {
            Some(part) => {
                proof {
                    law_target_stays_in_workspace(root@, hint@);
                }
                Target::Workspace { root: root.to_owned(), relative: relative_of(part.as_str()) }
            },
            None => Target::Scratchpad,
        },
        _ => Target::Scratchpad,
    }
}

// ── Laws ─────────────────────────────────────────────────────────────────────

/// Nothing is left at the beginning of what was stripped.
proof fn lemma_nothing_leads(hint: Seq<char>)
    ensures
        !text::begins_with(relative_path(hint), "/"@),
        !text::begins_with(relative_path(hint), "./"@),
    decreases hint.len(),
{
    reveal_strlit("/");
    reveal_strlit("./");
    if hint.len() >= 1 && hint[0] == '/' {
        lemma_nothing_leads(hint.skip(1));
    } else if hint.len() >= 2 && hint[0] == '.' && hint[1] == '/' {
        lemma_nothing_leads(hint.skip(2));
    } else {
        if text::begins_with(hint, "/"@) {
            assert(hint.subrange(0, 1)[0] == hint[0]);
        }
        if text::begins_with(hint, "./"@) {
            assert(hint.subrange(0, 2)[0] == hint[0]);
            assert(hint.subrange(0, 2)[1] == hint[1]);
        }
    }
}

/// Stripping changes neither whether a path climbs nor where it leads.
proof fn lemma_stripping(hint: Seq<char>, depth: int, at: Seq<Seq<char>>, absolute: bool)
    requires
        0 <= depth,
    ensures
        climbs(relative_path(hint), depth) == climbs(hint, depth),
        walked(relative_path(hint), at, absolute) == walked(hint, at, absolute),
    decreases hint.len(),
{
    reveal_strlit("..");
    reveal_strlit(".");
    if hint.len() >= 1 && hint[0] == '/' {
        lemma_component_length(hint, 0);
        assert(hint.take(0).len() == 0);
        lemma_stripping(hint.skip(1), depth, at, absolute);
    } else if hint.len() >= 2 && hint[0] == '.' && hint[1] == '/' {
        lemma_component_length(hint, 1);
        assert(hint.take(1) =~= "."@);
        lemma_stripping(hint.skip(2), depth, at, absolute);
    }
}

/// A path that does not climb leads to a place below the one that it is walked from.
proof fn lemma_no_climb_stays_below(
    path: Seq<char>,
    home: Seq<Seq<char>>,
    below: Seq<Seq<char>>,
    absolute: bool,
)
    requires
        !climbs(path, below.len() as int),
    ensures
        walked(path, home + below, absolute) matches Some(t) && home.is_prefix_of(t),
    decreases path.len(),
{
    reveal_strlit("..");
    lemma_component_bounds(path);
    let n = component_length(path);
    let component = path.take(n);
    let next = if component == ".."@ {
        below.drop_last()
    } else if component.len() == 0 || component == "."@ {
        below
    } else {
        below.push(component)
    };
    if component == ".."@ {
        assert((home + below).drop_last() =~= home + next);
    } else if component.len() > 0 && component != "."@ {
        assert((home + below).push(component) =~= home + next);
    }
    if n < path.len() {
        lemma_no_climb_stays_below(path.skip(n + 1), home, next, absolute);
    }
}

/// What is left of a path once it comes home to stay leads to the same place, and does not
/// climb.
proof fn lemma_rest_leads_to_the_same(
    path: Seq<char>,
    at: Seq<Seq<char>>,
    home: Seq<Seq<char>>,
    absolute: bool,
)
    ensures
        rest_at_home(path, at, home, absolute) matches Some(rest) ==> walked(path, at, absolute)
            == walked(rest, home, absolute) && !climbs(rest, 0),
    decreases path.len(),
{
    lemma_component_bounds(path);
    let n = component_length(path);
    let empty = Seq::<char>::empty();
    reveal_strlit("..");
    assert(empty.take(0).len() == 0);
    if !(at == home && !climbs(path, 0)) {
        if let Some(next) = place_after(path.take(n), at, absolute) {
            if n < path.len() {
                lemma_rest_leads_to_the_same(path.skip(n + 1), next, home, absolute);
            }
        }
    }
}

/// A path that is outside, or climbs out, and leads to a place below `home`, comes home to
/// stay.
proof fn lemma_comes_home(
    path: Seq<char>,
    at: Seq<Seq<char>>,
    home: Seq<Seq<char>>,
    absolute: bool,
)
    requires
        home.is_prefix_of(at) ==> climbs(path, at.len() - home.len()),
        walked(path, at, absolute) matches Some(t) && home.is_prefix_of(t),
    ensures
        rest_at_home(path, at, home, absolute) is Some,
    decreases path.len(),
{
    reveal_strlit("..");
    lemma_component_bounds(path);
    let n = component_length(path);
    let component = path.take(n);
    let next = place_after(component, at, absolute)->0;
    let rest = path.skip(n + 1);
    if at == home {
        assert(at.subrange(0, home.len() as int) =~= home);
    }
    if next == home {
        if n < path.len() {
            if climbs(rest, 0) {
                lemma_comes_home(rest, next, home, absolute);
            }
            assert(rest_at_home(rest, next, home, absolute) is Some);
        }
    } else if home.is_prefix_of(next) {
        if next.len() == home.len() {
            assert(next =~= home);
        }
        assert(home.is_prefix_of(at)) by {
            assert forall|i: int| 0 <= i < home.len() implies at[i] == home[i] by {
                assert(next[i] == home[i]);
            }
            assert(at.subrange(0, home.len() as int) =~= home);
        }
        assert(next.len() - home.len() == depth_after(component, at.len() - home.len()));
        if n < path.len() {
            lemma_comes_home(rest, next, home, absolute);
        }
    } else if n < path.len() {
        lemma_comes_home(rest, next, home, absolute);
    }
}

/// Whether a hint leads to a place inside the project at `root`, as far as the names tell.
pub open spec fn leads_inside(root: Seq<char>, hint: Seq<char>) -> bool {
    !climbs(hint, 0) || (place(root) matches Some(home) && (walked(hint, home, is_absolute(root))
        matches Some(t) && home.is_prefix_of(t)))
}

/// Whatever an answer hints at, the path of a target is relative, with neither `/` nor
/// `./` at its beginning, and stays inside the project.
pub proof fn law_target_stays_in_workspace(root: Seq<char>, hint: Seq<char>)
    ensures
        mapped_target(Some(root), Some(hint)) matches Some(p) ==> {
            &&& p.0 == root
            &&& !text::begins_with(p.1, "/"@)
            &&& !text::begins_with(p.1, "./"@)
            &&& !climbs(p.1, 0)
        },
{
    if let Some(part) = part_inside(root, hint) {
        lemma_nothing_leads(part);
        lemma_stripping(part, 0, Seq::empty(), false);
        if let Some(home) = place(root) {
            lemma_rest_leads_to_the_same(hint, home, home, is_absolute(root));
        }
    }
}

/// The path of a target is the hint without what leads it, where the hint does not climb;
/// and it always leads to the same place as the hint, which is inside the project.
pub proof fn law_target_is_the_hinted_file(root: Seq<char>, hint: Seq<char>)
    ensures
        mapped_target(Some(root), Some(hint)) matches Some(p) ==> {
            &&& !climbs(hint, 0) ==> p.1 == relative_path(hint)
            &&& place(root) matches Some(home) ==> {
                &&& walked(p.1, home, is_absolute(root)) == walked(hint, home, is_absolute(root))
                &&& walked(p.1, home, is_absolute(root)) matches Some(t) && home.is_prefix_of(t)
            }
        },
{
    if let (Some(part), Some(home)) = (part_inside(root, hint), place(root)) {
        let absolute = is_absolute(root);
        lemma_stripping(part, 0, home, absolute);
        lemma_rest_leads_to_the_same(hint, home, home, absolute);
        assert(home + Seq::<Seq<char>>::empty() =~= home);
        lemma_no_climb_stays_below(part, home, Seq::empty(), absolute);
    }
}

/// Code goes onto the scratchpad exactly where there is no project, no hint, or a hint that
/// does not lead inside the project.
pub proof fn law_scratchpad_is_the_fallback(
    workspace_root: Option<Seq<char>>,
    target_hint: Option<Seq<char>>,
)
    ensures
        mapped_target(workspace_root, target_hint) is None <==> workspace_root is None
            || target_hint is None || !leads_inside(workspace_root->0, target_hint->0),
{
    if let (Some(root), Some(hint)) = (workspace_root, target_hint) {
        if let Some(home) = place(root) {
            let absolute = is_absolute(root);
            if climbs(hint, 0) {
                if leads_inside(root, hint) {
                    lemma_comes_home(hint, home, home, absolute);
                }
                if let Some(rest) = rest_at_home(hint, home, home, absolute) {
                    lemma_rest_leads_to_the_same(hint, home, home, absolute);
                    assert(home + Seq::<Seq<char>>::empty() =~= home);
                    lemma_no_climb_stays_below(rest, home, Seq::empty(), absolute);
                }
            }
        }
    }
}

/// A hint in the documented form, on a line of its own, is the one that is extracted,
/// where no line before it holds a hint.
pub proof fn law_hint_is_extracted(before: Seq<Seq<char>>, path: Seq<char>, after: Seq<Seq<char>>)
    requires
        forall|i: int| 0 <= i < before.len() ==> line_hint(#[trigger] before[i]) is None,
        path.len() > 0,
        text::is_trim(path),
    ensures
        first_hint(before + seq!["// TARGET_FILE: "@ + path] + after) == Some(path),
    decreases before.len(),
{
    let line = "// TARGET_FILE: "@ + path;
    let all = before + seq![line] + after;
    if before.len() == 0 {
        reveal_strlit("// TARGET_FILE: ");
        reveal_strlit("// TARGET_FILE:");
        reveal_strlit(" ");
        assert(all[0] == line);
        assert(line.last() == path.last());
        text::lemma_trimmed_twice(line);
        assert(line.subrange(0, 15) =~= "// TARGET_FILE:"@);
        assert(line.skip(15) =~= " "@ + path + Seq::<char>::empty());
        text::lemma_trimmed_inside(" "@, path, Seq::empty());
    } else {
        assert(all[0] == before[0]);
        let rest = before.skip(1);
        assert forall|i: int| 0 <= i < rest.len() implies line_hint(#[trigger] rest[i]) is None by {
            assert(rest[i] == before[i + 1]);
        }
        law_hint_is_extracted(rest, path, after);
        assert(all.skip(1) =~= rest + seq![line] + after);
    }
}

/// A line that names a file in the documented comment, with whatever white space around it,
/// hints at that file.
pub proof fn law_named_file_is_the_hint(line: Seq<char>, path: Seq<char>)
    requires
        text::trimmed(line) == "// TARGET_FILE: "@ + path,
        path.len() > 0,
        text::is_trim(path),
    ensures
        line_hint(line) == Some(path),
{
    reveal_strlit("// TARGET_FILE: ");
    reveal_strlit("// TARGET_FILE:");
    reveal_strlit(" ");
    let t = text::trimmed(line);
    assert(t.subrange(0, 15) =~= "// TARGET_FILE:"@);
    assert(t.skip(15) =~= " "@ + path + Seq::<char>::empty());
    text::lemma_trimmed_inside(" "@, path, Seq::empty());
}

/// What stands behind the comment is the hint, without the white space around it; where
/// nothing else stands there, there is none.
pub proof fn law_hint_is_what_follows_the_comment(line: Seq<char>, rest: Seq<char>)
    requires
        text::trimmed(line) == "// TARGET_FILE:"@ + rest,
    ensures
        text::trimmed(rest).len() > 0 ==> line_hint(line) == Some(text::trimmed(rest)),
        text::trimmed(rest).len() == 0 ==> line_hint(line) is None,
{
    text::law_prefix_comes_off("// TARGET_FILE:"@, rest, text::trimmed(line));
}

/// A line that does not begin with the comment, but for white space, hints at nothing.
pub proof fn law_line_without_the_comment_is_no_hint(line: Seq<char>)
    requires
        !text::begins_with(text::trimmed(line), "// TARGET_FILE:"@),
    ensures
        line_hint(line) is None,
{
}

/// The first line that hints at a file decides, whatever comes after it; without such a line
/// there is no hint.
pub proof fn law_first_hint_is_taken(lines: Seq<Seq<char>>, i: int)
    ensures
        0 <= i < lines.len() && line_hint(lines[i]) is Some && (forall|k: int|
            0 <= k < i ==> line_hint(#[trigger] lines[k]) is None) ==> first_hint(lines)
            == line_hint(lines[i]),
        (forall|k: int| 0 <= k < lines.len() ==> line_hint(#[trigger] lines[k]) is None)
            ==> first_hint(lines) is None,
    decreases lines.len(),
{
    if lines.len() > 0 {
        let rest = lines.skip(1);
        law_first_hint_is_taken(rest, i - 1);
        if line_hint(lines[0]) is None {
            if 0 < i < lines.len() {
                assert(rest[i - 1] == lines[i]);
                if forall|k: int| 0 <= k < i ==> line_hint(#[trigger] lines[k]) is None {
                    assert forall|k: int| 0 <= k < i - 1 implies line_hint(#[trigger] rest[k]) is None by {
                        assert(rest[k] == lines[k + 1]);
                    }
                }
            }
            if forall|k: int| 0 <= k < lines.len() ==> line_hint(#[trigger] lines[k]) is None {
                assert forall|k: int| 0 <= k < rest.len() implies line_hint(#[trigger] rest[k]) is None by {
                    assert(rest[k] == lines[k + 1]);
                }
            }
        }
    }
}

/// Whether a text is made of `/` and `./` alone.
pub open spec fn only_leads(s: Seq<char>) -> bool
    decreases s.len(),
{
    s.len() == 0 || (s[0] == '/' && only_leads(s.skip(1))) || (s.len() >= 2 && s[0] == '.' && s[1]
        == '/' && only_leads(s.skip(2)))
}

/// Stripping a hint takes off `/` and `./`, as many as lead it, and nothing else.
pub proof fn law_only_leading_marks_are_stripped(hint: Seq<char>)
    ensures
        exists|lead: Seq<char>|
            hint == #[trigger] (lead + relative_path(hint)) && only_leads(lead),
        !text::begins_with(relative_path(hint), "/"@),
        !text::begins_with(relative_path(hint), "./"@),
    decreases hint.len(),
{
    lemma_nothing_leads(hint);
    let n = if hint.len() >= 1 && hint[0] == '/' {
        1
    } else if hint.len() >= 2 && hint[0] == '.' && hint[1] == '/' {
        2int
    } else {
        0
    };
    if n > 0 {
        law_only_leading_marks_are_stripped(hint.skip(n));
        let lead = choose|lead: Seq<char>|
            hint.skip(n) == #[trigger] (lead + relative_path(hint.skip(n))) && only_leads(lead);
        let all = hint.take(n) + lead;
        let rest = relative_path(hint);
        assert(all.skip(n) =~= lead);
        assert(rest == relative_path(hint.skip(n)));
        assert(hint =~= hint.take(n) + hint.skip(n));
        assert(hint =~= all + rest);
    } else {
        assert(hint =~= Seq::<char>::empty() + relative_path(hint));
    }
}

/// A path is walked one component after the other: a name leads down, `..` leads up, `.` and
/// nothing lead nowhere.
pub proof fn law_walk_goes_by_components(
    name: Seq<char>,
    rest: Seq<char>,
    at: Seq<Seq<char>>,
    absolute: bool,
)
    requires
        forall|k: int| 0 <= k < name.len() ==> #[trigger] name[k] != '/',
    ensures
        ({
            let path = name + seq!['/'] + rest;
            let up = name == seq!['.', '.'];
            let stay = name.len() == 0 || name == seq!['.'];
            &&& !up && !stay ==> walked(path, at, absolute) == walked(rest, at.push(name), absolute)
            &&& !up && !stay ==> walked(name, at, absolute) == Some(at.push(name))
            &&& stay ==> walked(path, at, absolute) == walked(rest, at, absolute)
            &&& stay ==> walked(name, at, absolute) == Some(at)
            &&& up && at.len() > 0 ==> walked(path, at, absolute) == walked(
                rest,
                at.take(at.len() - 1),
                absolute,
            )
            &&& up && at.len() > 0 ==> walked(name, at, absolute) == Some(at.take(at.len() - 1))
            &&& up && at.len() == 0 && absolute ==> walked(path, at, absolute) == walked(
                rest,
                at,
                absolute,
            )
            &&& up && at.len() == 0 && absolute ==> walked(name, at, absolute) == Some(at)
            &&& up && at.len() == 0 && !absolute ==> walked(path, at, absolute) is None && walked(
                name,
                at,
                absolute,
            ) is None
        }),
{
    lemma_split(name, rest);
    assert(at.len() > 0 ==> at.drop_last() =~= at.take(at.len() - 1));
}

/// A path climbs by its components: `..` at the top climbs, and else what follows a component
/// decides, one level deeper behind a name and one level higher behind `..`.
pub proof fn law_climb_goes_by_components(name: Seq<char>, rest: Seq<char>, depth: int)
    requires
        0 <= depth,
        forall|k: int| 0 <= k < name.len() ==> #[trigger] name[k] != '/',
    ensures
        ({
            let path = name + seq!['/'] + rest;
            let up = name == seq!['.', '.'];
            let stay = name.len() == 0 || name == seq!['.'];
            &&& !up && !stay ==> climbs(path, depth) == climbs(rest, depth + 1) && !climbs(
                name,
                depth,
            )
            &&& stay ==> climbs(path, depth) == climbs(rest, depth) && !climbs(name, depth)
            &&& up && depth > 0 ==> climbs(path, depth) == climbs(rest, depth - 1) && !climbs(
                name,
                depth,
            )
            &&& up && depth == 0 ==> climbs(path, depth) && climbs(name, depth)
        }),
{
    lemma_split(name, rest);
}

/// A path splits at its first slash.
proof fn lemma_split(name: Seq<char>, rest: Seq<char>)
    requires
        forall|k: int| 0 <= k < name.len() ==> #[trigger] name[k] != '/',
    ensures
        ({
            let path = name + seq!['/'] + rest;
            let n = name.len() as int;
            &&& component_length(path) == n
            &&& path.take(n) == name
            &&& path.skip(n + 1) == rest
            &&& component_length(name) == n
            &&& name.take(n) == name
        }),
        ".."@ == seq!['.', '.'],
        "."@ == seq!['.'],
{
    reveal_strlit("..");
    reveal_strlit(".");
    let path = name + seq!['/'] + rest;
    let n = name.len() as int;
    assert forall|k: int| 0 <= k < n implies path[k] != '/' by {
        assert(path[k] == name[k]);
    }
    lemma_component_length(path, n);
    lemma_component_length(name, n);
    assert(path.take(n) =~= name);
    assert(path.skip(n + 1) =~= rest);
    assert(name.take(n) =~= name);
    assert(".."@ =~= seq!['.', '.']);
    assert("."@ =~= seq!['.']);
}

/// The place of a root is where it leads from the top of the file system, where it starts
/// there, and else from the working directory.
pub proof fn law_root_has_its_place(root: Seq<char>)
    ensures
        place(root) == walked(root, Seq::empty(), root.len() > 0 && root[0] == '/'),
{
}

} // verus!
