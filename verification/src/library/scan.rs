//! Incremental scans: what to tag again, and what is gone.

use vstd::prelude::*;

use crate::library::meta::{extension, extension_of};
use crate::library::path_index::PathIndex;
use crate::text::{chars_of, lower_all, lower_chars, same_chars, starts_with, starts_with_chars};

verus! {

/// A file found by walking a root, or known from an earlier scan.
#[derive(Debug)]
pub struct Scanned {
    pub path: String,
    pub size: i64,
    pub mtime: i64,
}

/// The contents of a `Scanned`.
pub struct FileView {
    pub path: Seq<char>,
    pub size: i64,
    pub mtime: i64,
}

impl View for Scanned {
    type V = FileView;

    open spec fn view(&self) -> FileView {
        FileView { path: self.path@, size: self.size, mtime: self.mtime }
    }
}

#[derive(Debug, Clone, Copy, PartialEq, Eq, Structural)]
pub struct ScanReport {
    pub added: usize,
    pub updated: usize,
    pub removed: usize,
    pub total: usize,
}

impl Default for ScanReport {
    fn default() -> (r: ScanReport)
        ensures
            r == (ScanReport { added: 0, updated: 0, removed: 0, total: 0 }),
    {
        ScanReport { added: 0, updated: 0, removed: 0, total: 0 }
    }
}

impl ScanReport {
    /// Counts a file that was indexed: new, known before, or failed.
    pub fn count(&mut self, is_new: Option<bool>)
        requires
            old(self).added < usize::MAX,
            old(self).updated < usize::MAX,
        ensures
            *final(self) == (match is_new {
                Some(true) => ScanReport { added: (old(self).added + 1) as usize, ..*old(self) },
                Some(false) => ScanReport {
                    updated: (old(self).updated + 1) as usize,
                    ..*old(self)
                },
                None => *old(self),
            }),
    {
        match is_new {
            Some(true) => {
                self.added = self.added + 1;
            },
            Some(false) => {
                self.updated = self.updated + 1;
            },
            None => {},
        }
    }

    /// Whether the scan changed anything.
    pub fn is_change(&self) -> (r: bool)
        ensures
            r == (self.added > 0 || self.updated > 0 || self.removed > 0),
    {
        self.added > 0 || self.updated > 0 || self.removed > 0
    }
}

/// Whether a file name is that of a track that can be played.
pub open spec fn supported(name: Seq<char>) -> bool {
    match extension(name) {
        Some(e) => {
            let e = lower_all(e);
            ||| e == "flac"@
            ||| e == "wav"@
            ||| e == "aiff"@
            ||| e == "aif"@
            ||| e == "aifc"@
            ||| e == "mp3"@
            ||| e == "ogg"@
            ||| e == "oga"@
            ||| e == "opus"@
            ||| e == "m4a"@
            ||| e == "mp4"@
            ||| e == "alac"@
        },
        None => false,
    }
}

pub fn is_supported(name: &str) -> (r: bool)
    ensures
        r == supported(name@),
{
    match extension_of(&chars_of(name)) {
        Some(e) => {
            let e = lower_chars(&e);
            same_chars(&e, &chars_of("flac")) || same_chars(&e, &chars_of("wav")) || same_chars(
                &e,
                &chars_of("aiff"),
            ) || same_chars(&e, &chars_of("aif")) || same_chars(&e, &chars_of("aifc"))
                || same_chars(&e, &chars_of("mp3")) || same_chars(&e, &chars_of("ogg"))
                || same_chars(&e, &chars_of("oga")) || same_chars(&e, &chars_of("opus"))
                || same_chars(&e, &chars_of("m4a")) || same_chars(&e, &chars_of("mp4"))
                || same_chars(&e, &chars_of("alac"))
        },
        None => false,
    }
}

/// Whether a path is a root or lies under it.
pub open spec fn under(path: Seq<char>, root: Seq<char>) -> bool {
    starts_with(path, root) && (root.len() == 0 || root.last() == '/' || path.len() == root.len()
        || path[root.len() as int] == '/')
}

/// Whether a path lies under one of the roots.
pub open spec fn under_any(path: Seq<char>, roots: Seq<String>) -> bool {
    exists|k: int| 0 <= k < roots.len() && under(path, #[trigger] roots[k]@)
}

fn is_under_any(path: &str, roots: &Vec<String>) -> (r: bool)
    ensures
        r == under_any(path@, roots@),
{
    let p = chars_of(path);
    for k in 0..roots.len()
        invariant
            p@ == path@,
            forall|j: int| 0 <= j < k ==> !under(path@, #[trigger] roots@[j]@),
    {
        let root = chars_of(roots[k].as_str());
        let n = root.len();
        if starts_with_chars(&p, &root) {
            if n == 0 || root[n - 1] == '/' || p.len() == n || p[n] == '/' {
                assert(under(path@, roots@[k as int]@));
                return true;
            }
        }
        assert(!under(path@, roots@[k as int]@));
    }
    false
}

/// What a scan has to do.
#[derive(Debug)]
pub struct ScanPlan {
    /// Positions of the found files that are new or were modified.
    pub todo: Vec<usize>,
    /// Positions of the known files that are gone.
    pub gone: Vec<usize>,
    /// How many different files were found.
    pub total: usize,
}

/// Whether a file is known as it is now.
pub open spec fn unchanged(known: Seq<Scanned>, f: FileView) -> bool {
    exists|k: int| 0 <= k < known.len() && #[trigger] known[k]@ == f
}

/// Whether a path was found.
pub open spec fn found_path(found: Seq<Scanned>, path: Seq<char>) -> bool {
    exists|i: int| 0 <= i < found.len() && #[trigger] found[i]@.path == path
}

/// The positions below `n` at which the test holds, ascending.
pub open spec fn positions(n: nat, test: spec_fn(int) -> bool) -> Seq<usize>
    decreases n,
{
    if n == 0 {
        Seq::empty()
    } else if test(n - 1) {
        positions((n - 1) as nat, test).push((n - 1) as usize)
    } else {
        positions((n - 1) as nat, test)
    }
}

/// The different paths among the first `n` files, in order.
pub open spec fn distinct_paths(files: Seq<Scanned>, n: nat) -> Seq<Seq<char>>
    decreases n,
{
    if n == 0 || n > files.len() {
        Seq::empty()
    } else {
        let before = distinct_paths(files, (n - 1) as nat);
        if before.contains(files[n - 1]@.path) {
            before
        } else {
            before.push(files[n - 1]@.path)
        }
    }
}

proof fn lemma_distinct_contains(files: Seq<Scanned>, n: nat, p: Seq<char>)
    requires
        n <= files.len(),
    ensures
        distinct_paths(files, n).contains(p) <==> exists|i: int|
            0 <= i < n && #[trigger] files[i]@.path == p,
    decreases n,
{
    if n > 0 {
        lemma_distinct_contains(files, (n - 1) as nat, p);
        let before = distinct_paths(files, (n - 1) as nat);
        let last = files[n - 1]@.path;
        if !before.contains(last) {
            assert(before.push(last)[before.len() as int] == last);
            if before.contains(p) {
                let j = choose|j: int| 0 <= j < before.len() && before[j] == p;
                assert(before.push(last)[j] == p);
            }
            if before.push(last).contains(p) && p != last {
                let j = choose|j: int|
                    0 <= j < before.push(last).len() && before.push(last)[j] == p;
                assert(before[j] == p);
            }
        }
        if exists|i: int| 0 <= i < n && #[trigger] files[i]@.path == p {
            let i = choose|i: int| 0 <= i < n && #[trigger] files[i]@.path == p;
            if i < n - 1 {
                assert(exists|i: int| 0 <= i < n - 1 && #[trigger] files[i]@.path == p);
            }
        }
    }
}

/// Whether the paths of some files are all different.
pub open spec fn paths_differ(files: Seq<Scanned>) -> bool {
    forall|i: int, j: int|
        0 <= i < j < files.len() ==> #[trigger] files[i]@.path != #[trigger] files[j]@.path
}

/// What to tag again: found files that are not known as they are now.
pub open spec fn todo_test(known: Seq<Scanned>, found: Seq<Scanned>) -> spec_fn(int) -> bool {
    |i: int| !unchanged(known, found[i]@)
}

/// What to prune: known files that were not found though they lie under a root
/// that is available.
pub open spec fn gone_test(
    known: Seq<Scanned>,
    found: Seq<Scanned>,
    live_roots: Seq<String>,
) -> spec_fn(int) -> bool {
    |k: int| !found_path(found, known[k]@.path) && under_any(known[k]@.path, live_roots)
}

/// Plans an incremental scan: only new or modified files are tagged again;
/// vanished files are pruned. `live_roots` are the roots that are available:
/// what lies on an unmounted disk or an offline NAS is never pruned.
pub fn plan_scan(
    known: &Vec<Scanned>,
    found: &Vec<Scanned>,
    live_roots: &Vec<String>,
) -> (plan: ScanPlan)
    requires
        paths_differ(known@),
    ensures
        plan.todo@ == positions(found@.len(), todo_test(known@, found@)),
        plan.gone@ == positions(known@.len(), gone_test(known@, found@, live_roots@)),
        plan.total == distinct_paths(found@, found@.len()).len(),
{
    let index = index_paths(known);
    let mut todo: Vec<usize> = Vec::new();
    let mut seen = PathIndex::new();
    for i in 0..found.len()
        invariant
            paths_differ(known@),
            index.wf(),
            index.listed() == known_paths(known@),
            seen.wf(),
            seen.listed() == distinct_paths(found@, i as nat),
            todo@ == positions(i as nat, todo_test(known@, found@)),
    {
        let f = &found[i];
        let same = match index.find(f.path.as_str()) {
            Some(k) => {
                assert(known_paths(known@)[k as int] == known@[k as int]@.path);
                let same = known[k].size == f.size && known[k].mtime == f.mtime;
                proof {
                    if same {
                        assert(known@[k as int]@ == f@);
                    } else if unchanged(known@, f@) {
                        let j = choose|j: int| 0 <= j < known@.len() && #[trigger] known@[j]@ == f@;
                        if j < k {
                            assert(known@[j]@.path != known@[k as int]@.path);
                        } else if k < j {
                            assert(known@[k as int]@.path != known@[j]@.path);
                        }
                    }
                }
                same
            },
            None => {
                proof {
                    if unchanged(known@, f@) {
                        let j = choose|j: int| 0 <= j < known@.len() && #[trigger] known@[j]@ == f@;
                        assert(known_paths(known@)[j] == f@.path);
                    }
                }
                false
            },
        };
        assert(same == unchanged(known@, found@[i as int]@));
        if !same {
            todo.push(i);
        }
        seen.insert(f.path.as_str());
    }
    let mut gone: Vec<usize> = Vec::new();
    for k in 0..known.len()
        invariant
            seen.wf(),
            seen.listed() == distinct_paths(found@, found@.len()),
            gone@ == positions(k as nat, gone_test(known@, found@, live_roots@)),
    {
        let p = known[k].path.as_str();
        proof {
            lemma_distinct_contains(found@, found@.len(), p@);
        }
        let was_found = match seen.find(p) {
            Some(i) => {
                assert(seen.listed().contains(p@));
                true
            },
            None => false,
        };
        assert(was_found == found_path(found@, known@[k as int]@.path));
        if !was_found && is_under_any(p, live_roots) {
            gone.push(k);
        }
    }
    ScanPlan { todo, gone, total: seen.len() }
}

/// The paths of some files.
pub open spec fn known_paths(files: Seq<Scanned>) -> Seq<Seq<char>> {
    Seq::new(files.len(), |i: int| files[i]@.path)
}

fn index_paths(files: &Vec<Scanned>) -> (index: PathIndex)
    requires
        paths_differ(files@),
    ensures
        index.wf(),
        index.listed() == known_paths(files@),
{
    let mut index = PathIndex::new();
    for i in 0..files.len()
        invariant
            paths_differ(files@),
            index.wf(),
            index.listed() == known_paths(files@).subrange(0, i as int),
    {
        let ghost done = index.listed();
        proof {
            assert forall|j: int| 0 <= j < done.len() implies #[trigger] done[j]
                != files@[i as int]@.path by {
                assert(files@[j]@.path != files@[i as int]@.path);
            }
        }
        index.insert(files[i].path.as_str());
        assert(known_paths(files@).subrange(0, i + 1) == known_paths(files@).subrange(
            0,
            i as int,
        ).push(files@[i as int]@.path));
    }
    assert(known_paths(files@).subrange(0, files@.len() as int) == known_paths(files@));
    index
}

proof fn lemma_positions(n: nat, test: spec_fn(int) -> bool, i: int)
    requires
        0 <= i < positions(n, test).len(),
        n <= usize::MAX,
    ensures
        0 <= positions(n, test)[i] < n,
        test(positions(n, test)[i] as int),
    decreases n,
{
    if n > 0 {
        let before = positions((n - 1) as nat, test);
        if i < before.len() {
            lemma_positions((n - 1) as nat, test, i);
        }
    }
}

/// A scan never prunes what it cannot see: a file is taken for gone only if it
/// lies under a root that is available, and was not found.
pub proof fn only_visible_files_are_pruned(
    known: Seq<Scanned>,
    found: Seq<Scanned>,
    live_roots: Seq<String>,
    i: int,
)
    requires
        known.len() <= usize::MAX,
        0 <= i < positions(known.len(), gone_test(known, found, live_roots)).len(),
    ensures
        ({
            let k = positions(known.len(), gone_test(known, found, live_roots))[i] as int;
            0 <= k < known.len() && under_any(known[k]@.path, live_roots) && !found_path(
                found,
                known[k]@.path,
            )
        }),
{
    lemma_positions(known.len(), gone_test(known, found, live_roots), i);
}

proof fn lemma_no_positions(n: nat, test: spec_fn(int) -> bool)
    requires
        forall|i: int| 0 <= i < n ==> !#[trigger] test(i),
    ensures
        positions(n, test) == Seq::<usize>::empty(),
    decreases n,
{
    if n > 0 {
        lemma_no_positions((n - 1) as nat, test);
    }
}

/// A scan right after another has nothing to do: where exactly what was found
/// is known, nothing is tagged again and nothing is pruned.
pub proof fn second_scan_is_idle(found: Seq<Scanned>, live_roots: Seq<String>)
    ensures
        positions(found.len(), todo_test(found, found)) == Seq::<usize>::empty(),
        positions(found.len(), gone_test(found, found, live_roots)) == Seq::<usize>::empty(),
{
    assert forall|i: int| 0 <= i < found.len() implies !#[trigger] todo_test(found, found)(i) by {
        assert(found[i]@ == found[i]@);
    }
    assert forall|i: int| 0 <= i < found.len() implies !#[trigger] gone_test(
        found,
        found,
        live_roots,
    )(i) by {
        assert(found[i]@.path == found[i]@.path);
    }
    lemma_no_positions(found.len(), todo_test(found, found));
    lemma_no_positions(found.len(), gone_test(found, found, live_roots));
}

/// The tracks outside the given roots, to be dropped after roots were removed
/// from the settings.
pub fn outside_roots(paths: &Vec<String>, roots: &Vec<String>) -> (r: Vec<usize>)
    ensures
        r@ == positions(paths@.len(), |i: int| !under_any(paths@[i]@, roots@)),
{
    let ghost test = |i: int| !under_any(paths@[i]@, roots@);
    let mut out: Vec<usize> = Vec::new();
    for i in 0..paths.len()
        invariant
            test == (|i: int| !under_any(paths@[i]@, roots@)),
            out@ == positions(i as nat, test),
    {
        if !is_under_any(paths[i].as_str(), roots) {
            out.push(i);
        }
    }
    out
}

} // verus!
