//! Repository paths and the three-way merge of file snapshots.
use vstd::prelude::*;
use crate::text::{chars_of};
use crate::snapshot::{Snapshot, File, FileView, sorted, has_nul};
use crate::world::{World, Files, Need, Effect, EffectView};
use crate::error::{Fault, Refusal};

verus! {

/// Position `i` begins a path segment: it is the first character or follows a `/`.
pub open spec fn starts_segment(p: Seq<char>, i: int) -> bool {
    0 <= i < p.len() && (i == 0 || p[i - 1] == '/')
}

/// The segment of `p` that begins at `i` is exactly `name`.
pub open spec fn segment_is(p: Seq<char>, i: int, name: Seq<char>) -> bool {
    &&& starts_segment(p, i)
    &&& i + name.len() <= p.len()
    &&& p.subrange(i, i + name.len()) == name
    &&& (i + name.len() == p.len() || p[i + name.len()] == '/')
}

/// A path that Tandem may read or write inside a repository: non-empty and relative,
/// with no `.` at its start and no `..` or `.git` segment, as `Path::components` sees it.
pub open spec fn is_valid_path(p: Seq<char>) -> bool {
    &&& p.len() > 0
    &&& p[0] != '/'
    &&& !segment_is(p, 0, seq!['.'])
    &&& forall|i: int| 0 <= i < p.len() ==> !segment_is(p, i, seq!['.', '.'])
    &&& forall|i: int| 0 <= i < p.len() ==> !segment_is(p, i, seq!['.', 'g', 'i', 't'])
}

/// Whether the segment of `p` that starts at `i` is `name`.
fn segment_matches(p: &Vec<char>, i: usize, name: &[char]) -> (r: bool)
    requires
        starts_segment(p@, i as int),
    ensures
        r == segment_is(p@, i as int, name@),
{
    if name.len() > p.len() - i {
        return false;
    }
    let mut j: usize = 0;
    while j < name.len()
        invariant
            j <= name.len(),
            i + name.len() <= p.len(),
            p@.subrange(i as int, i + j) == name@.take(j as int),
        decreases name.len() - j,
    {
        if p[i + j] != name[j] {
            assert(p@.subrange(i as int, i + name.len())[j as int] != name@[j as int]);
            return false;
        }
        assert(p@.subrange(i as int, i + j + 1) =~= p@.subrange(i as int, i + j).push(p@[i + j]));
        assert(name@.take(j + 1) =~= name@.take(j as int).push(name@[j as int]));
        j = j + 1;
    }
    assert(name@.take(j as int) =~= name@);
    i + name.len() == p.len() || p[i + name.len()] == '/'
}

/// Whether Tandem may touch the repository path `path`.
pub fn valid_path(path: &str) -> (r: bool)
    ensures
        r == is_valid_path(path@),
{
    let p = chars_of(path);
    if p.len() == 0 || p[0] == '/' {
        return false;
    }
    let dot = ['.'];
    let dots = ['.', '.'];
    let git = ['.', 'g', 'i', 't'];
    assert(dot@ == seq!['.']);
    assert(dots@ == seq!['.', '.']);
    assert(git@ == seq!['.', 'g', 'i', 't']);
    if segment_matches(&p, 0, &dot) {
        return false;
    }
    let mut i: usize = 0;
    while i < p.len()
        invariant
            i <= p.len(),
            p@ == path@,
            dots@ == seq!['.', '.'],
            git@ == seq!['.', 'g', 'i', 't'],
            forall|k: int| 0 <= k < i ==> !segment_is(p@, k, seq!['.', '.']),
            forall|k: int| 0 <= k < i ==> !segment_is(p@, k, seq!['.', 'g', 'i', 't']),
        decreases p.len() - i,
    {
        if i == 0 || p[i - 1] == '/' {
            if segment_matches(&p, i, &dots) || segment_matches(&p, i, &git) {
                return false;
            }
        }
        i = i + 1;
    }
    true
}

/// A path of one name is valid exactly when the name is not `.`, `..` or `.git`: names
/// that merely begin with `.git`, such as `.gitignore` or `.github`, are ordinary names.
pub proof fn law_single_names(n: Seq<char>)
    requires
        n.len() > 0,
        forall|i: int| 0 <= i < n.len() ==> n[i] != '/',
    ensures
        is_valid_path(n) <==> (n != seq!['.'] && n != seq!['.', '.'] && n != seq!['.', 'g', 'i', 't']),
{
    assert forall|name: Seq<char>, i: int| #[trigger] segment_is(n, i, name) implies i == 0 && n == name by {
        if i > 0 {
            assert(n[i - 1] != '/');
        }
        if name.len() < n.len() {
            assert(n[name.len() as int] != '/');
        }
        assert(n.subrange(0, n.len() as int) =~= n);
    }
    if n == seq!['.'] {
        assert(n.subrange(0, n.len() as int) =~= n);
        assert(segment_is(n, 0, seq!['.']));
    }
    if n == seq!['.', '.'] {
        assert(n.subrange(0, n.len() as int) =~= n);
        assert(segment_is(n, 0, seq!['.', '.']));
    }
    if n == seq!['.', 'g', 'i', 't'] {
        assert(n.subrange(0, n.len() as int) =~= n);
        assert(segment_is(n, 0, seq!['.', 'g', 'i', 't']));
    }
}

/// Under a directory name `n`, a segment of `n/p` that is a name without `/` is either
/// `n` itself or a segment of `p`.
proof fn lemma_segment_under(n: Seq<char>, p: Seq<char>, name: Seq<char>, i: int)
    requires
        n.len() > 0,
        forall|k: int| 0 <= k < n.len() ==> n[k] != '/',
        name.len() > 0,
        forall|k: int| 0 <= k < name.len() ==> name[k] != '/',
    ensures
        segment_is(n + seq!['/'] + p, i, name) <==> ((i == 0 && n == name) || (i > n.len()
            && segment_is(p, i - n.len() - 1, name))),
{
    let q = n + seq!['/'] + p;
    let m = n.len() as int;
    let l = name.len() as int;
    assert(q.len() == m + 1 + p.len());
    assert(forall|k: int| 0 <= k < m ==> q[k] == n[k]);
    assert(q[m] == '/');
    assert(forall|k: int| m < k < q.len() ==> q[k] == p[k - m - 1]);
    if 0 < i <= m {
        assert(q[i - 1] == n[i - 1]);
    }
    if i == 0 {
        if segment_is(q, 0, name) {
            if l < m {
                assert(q[l] == n[l]);
            } else if l > m {
                assert(q.subrange(0, l)[m] == q[m]);
            } else {
                assert(q.subrange(0, m) =~= n);
            }
        }
        if n == name {
            assert(q.subrange(0, m) =~= n);
        }
    }
    if i > m {
        let j = i - m - 1;
        if j > 0 && i < q.len() {
            assert(q[i - 1] == p[j - 1]);
        }
        if i + l <= q.len() {
            assert(q.subrange(i, i + l) =~= p.subrange(j, j + l));
        }
        if i + l < q.len() {
            assert(q[i + l] == p[j + l]);
        }
    }
}

/// A valid path stays valid under a directory name exactly when the name is not `.`, `..`
/// or `.git`: `.github/x` and `src/.gitignore` are ordinary paths.
pub proof fn law_names_under_a_directory(n: Seq<char>, p: Seq<char>)
    requires
        n.len() > 0,
        forall|i: int| 0 <= i < n.len() ==> n[i] != '/',
        is_valid_path(p),
    ensures
        is_valid_path(n + seq!['/'] + p) <==> (n != seq!['.'] && n != seq!['.', '.'] && n != seq!['.', 'g', 'i', 't']),
{
    let q = n + seq!['/'] + p;
    let m = n.len() as int;
    let dot = seq!['.'];
    let dots = seq!['.', '.'];
    let git = seq!['.', 'g', 'i', 't'];
    assert(q[0] == n[0]);
    lemma_segment_under(n, p, dot, 0);
    lemma_segment_under(n, p, dots, 0);
    lemma_segment_under(n, p, git, 0);
    if n != dot && n != dots && n != git {
        assert forall|i: int| 0 <= i < q.len() implies !segment_is(q, i, dots) by {
            lemma_segment_under(n, p, dots, i);
            if i > m {
                assert(0 <= i - m - 1 < p.len());
            }
        }
        assert forall|i: int| 0 <= i < q.len() implies !segment_is(q, i, git) by {
            lemma_segment_under(n, p, git, i);
            if i > m {
                assert(0 <= i - m - 1 < p.len());
            }
        }
    }
}

/// The file at `p`, if any.
pub open spec fn file_at(m: Files, p: Seq<char>) -> Option<FileView> {
    if m.dom().contains(p) {
        Some(m[p])
    } else {
        None
    }
}

/// What a three-way merge does at one path.
pub enum Step {
    /// Leave the current file as it is.
    Keep,
    /// Make the path hold this file, or nothing.
    Take(Option<FileView>),
    /// Merge the texts of base, current and desired; the result has this executable bit.
    Merge(Seq<u8>, Seq<u8>, Seq<u8>, bool),
    /// The changes cannot be combined.
    Conflict,
}

/// The step for one path, from its base, current and desired files.
pub open spec fn merge_step(b: Option<FileView>, c: Option<FileView>, d: Option<FileView>) -> Step {
    if b == d || c == d {
        Step::Keep
    } else if c == b {
        Step::Take(d)
    } else {
        match (b, c, d) {
            (Some(b), Some(c), Some(d)) => {
                if b.0.contains(0u8) || c.0.contains(0u8) || d.0.contains(0u8) {
                    Step::Conflict
                } else if c.1 == b.1 {
                    Step::Merge(b.0, c.0, d.0, d.1)
                } else if d.1 == b.1 || c.1 == d.1 {
                    Step::Merge(b.0, c.0, d.0, c.1)
                } else {
                    Step::Conflict
                }
            },
            _ => Step::Conflict,
        }
    }
}

/// How one path ends up, given what the world answers about text merges.
pub enum Resolution {
    /// The path holds this file, or nothing.
    Holds(Option<FileView>),
    Conflict,
    /// The text merge of these base, current and desired contents is not known yet.
    Missing(Seq<u8>, Seq<u8>, Seq<u8>),
}

pub open spec fn resolve(w: World, current: Option<FileView>, step: Step) -> Resolution {
    match step {
        Step::Keep => Resolution::Holds(current),
        Step::Take(d) => Resolution::Holds(d),
        Step::Merge(b, c, d, x) => match w.text_merged(b, c, d) {
            None => Resolution::Missing(b, c, d),
            Some(None) => Resolution::Conflict,
            Some(Some(out)) => Resolution::Holds(Some((out, x))),
        },
        Step::Conflict => Resolution::Conflict,
    }
}

/// How path `p` ends up in the merge of `base`, `current` and `desired`.
pub open spec fn resolution(w: World, base: Files, current: Files, desired: Files, p: Seq<char>) -> Resolution {
    if base.dom().contains(p) || desired.dom().contains(p) {
        resolve(w, file_at(current, p), merge_step(file_at(base, p), file_at(current, p), file_at(desired, p)))
    } else {
        Resolution::Holds(file_at(current, p))
    }
}

/// What path `p` finally holds: its resolution, or its current file where it conflicts.
pub open spec fn final_file(w: World, base: Files, current: Files, desired: Files, p: Seq<char>) -> Option<FileView> {
    match resolution(w, base, current, desired, p) {
        Resolution::Holds(x) => x,
        _ => file_at(current, p),
    }
}

/// The merged files: each path holds what its resolution gives.
pub open spec fn merged(w: World, base: Files, current: Files, desired: Files) -> Files {
    Map::new(
        |p: Seq<char>| final_file(w, base, current, desired, p) is Some,
        |p: Seq<char>| final_file(w, base, current, desired, p).unwrap(),
    )
}

/// Whether the merge needs a text merge that the world does not know yet.
pub open spec fn merge_missing(w: World, base: Files, current: Files, desired: Files) -> bool {
    exists|p: Seq<char>| #[trigger] resolution(w, base, current, desired, p) is Missing
}

/// The paths whose changes cannot be combined.
pub open spec fn merge_conflicts(w: World, base: Files, current: Files, desired: Files) -> Set<Seq<char>> {
    Set::new(|p: Seq<char>| resolution(w, base, current, desired, p) is Conflict)
}

/// `v` lists exactly the paths of `s`, in order.
pub open spec fn lists(v: Seq<String>, s: Set<Seq<char>>) -> bool {
    &&& sorted(v.map_values(|x: String| x@))
    &&& forall|p: Seq<char>| s.contains(p) <==> v.map_values(|x: String| x@).contains(p)
}

/// The contract of a three-way merge: success, a conflict, or a request for a text merge.
pub open spec fn merge_result(w: World, base: Files, current: Files, desired: Files, r: Result<Snapshot, Fault>) -> bool {
    match r {
        Ok(s) => !merge_missing(w, base, current, desired) && merge_conflicts(w, base, current, desired).is_empty()
            && s@ == merged(w, base, current, desired),
        Err(Fault::Refused(Refusal::Conflict(v))) => !merge_missing(w, base, current, desired)
            && !merge_conflicts(w, base, current, desired).is_empty()
            && lists(v@, merge_conflicts(w, base, current, desired)),
        Err(Fault::Need(Need::TextMerge(b, c, d))) => exists|p: Seq<char>|
            #[trigger] resolution(w, base, current, desired, p) == Resolution::Missing(b@, c@, d@),
        _ => false,
    }
}

fn same_opt(a: Option<&File>, b: Option<&File>) -> (r: bool)
    ensures
        r == (opt_file(a) == opt_file(b)),
{
    match (a, b) {
        (Some(x), Some(y)) => x.same(y),
        (None, None) => true,
        _ => false,
    }
}

pub open spec fn opt_file(a: Option<&File>) -> Option<FileView> {
    match a {
        Some(f) => Some(f@),
        None => None,
    }
}

/// Resolves one path of the merge into `result`, noting a conflict in `conflicts`.
fn merge_path(
    path: &String,
    base: &Snapshot,
    current: &Snapshot,
    desired: &Snapshot,
    world: &World,
    result: &mut Snapshot,
    conflicts: &mut Snapshot,
) -> (r: Result<(), Fault>)
    requires
        base@.dom().contains(path@) || desired@.dom().contains(path@),
    ensures
        r is Ok ==> match resolution(*world, base@, current@, desired@, path@) {
            Resolution::Holds(Some(f)) => final(result)@ == old(result)@.insert(path@, f) && final(conflicts)@ == old(conflicts)@,
            Resolution::Holds(None) => final(result)@ == old(result)@.remove(path@) && final(conflicts)@ == old(conflicts)@,
            Resolution::Conflict => final(result)@ == old(result)@ && final(conflicts)@.dom() == old(conflicts)@.dom().insert(path@),
            Resolution::Missing(_, _, _) => false,
        },
        r matches Err(f) ==> (f matches Fault::Need(Need::TextMerge(b, c, d)) && resolution(*world, base@, current@, desired@, path@) == Resolution::Missing(b@, c@, d@)),
{
    let b = base.get(path.as_str());
    let c = current.get(path.as_str());
    let d = desired.get(path.as_str());
    if same_opt(b, d) || same_opt(c, d) {
        let keep = match c {
            Some(f) => Some(f.copy()),
            None => None,
        };
        match keep {
            Some(f) => {
                result.insert(path.clone(), f);
                assert(result@ =~= old(result)@.insert(path@, current@[path@]));
            },
            None => {
                result.remove(path.as_str());
            },
        }
        return Ok(());
    }
    if same_opt(c, b) {
        match d {
            Some(f) => result.insert(path.clone(), f.copy()),
            None => result.remove(path.as_str()),
        }
        return Ok(());
    }
    let (b, c, d) = match (b, c, d) {
        (Some(b), Some(c), Some(d)) => (b, c, d),
        _ => {
            conflicts.insert(path.clone(), File { bytes: Vec::new(), executable: false });
            return Ok(());
        },
    };
    if has_nul(&b.bytes) || has_nul(&c.bytes) || has_nul(&d.bytes) {
        conflicts.insert(path.clone(), File { bytes: Vec::new(), executable: false });
        return Ok(());
    }
    let executable = if c.executable == b.executable {
        d.executable
    } else if d.executable == b.executable || c.executable == d.executable {
        c.executable
    } else {
        conflicts.insert(path.clone(), File { bytes: Vec::new(), executable: false });
        return Ok(());
    };
    match world.text_merge(&b.bytes, &c.bytes, &d.bytes)? {
        Some(bytes) => {
            result.insert(path.clone(), File { bytes, executable });
        },
        None => {
            conflicts.insert(path.clone(), File { bytes: Vec::new(), executable: false });
        },
    }
    Ok(())
}

/// The files after resolving the paths in `done`; other paths keep their current files.
pub open spec fn merged_over(w: World, base: Files, current: Files, desired: Files, done: Set<Seq<char>>) -> Files {
    Map::new(
        |p: Seq<char>| (if done.contains(p) { final_file(w, base, current, desired, p) } else { file_at(current, p) }) is Some,
        |p: Seq<char>| (if done.contains(p) { final_file(w, base, current, desired, p) } else { file_at(current, p) }).unwrap(),
    )
}

pub open spec fn conflicts_over(w: World, base: Files, current: Files, desired: Files, done: Set<Seq<char>>) -> Set<Seq<char>> {
    Set::new(|p: Seq<char>| done.contains(p) && resolution(w, base, current, desired, p) is Conflict)
}

proof fn lemma_merge_step(
    w: World,
    base: Files,
    current: Files,
    desired: Files,
    done: Set<Seq<char>>,
    q: Seq<char>,
    before: Files,
    after: Files,
    cbefore: Set<Seq<char>>,
    cafter: Set<Seq<char>>,
)
    requires
        before == merged_over(w, base, current, desired, done),
        cbefore == conflicts_over(w, base, current, desired, done),
        !done.contains(q),
        match resolution(w, base, current, desired, q) {
            Resolution::Holds(Some(f)) => after == before.insert(q, f) && cafter == cbefore,
            Resolution::Holds(None) => after == before.remove(q) && cafter == cbefore,
            Resolution::Conflict => after == before && cafter == cbefore.insert(q),
            Resolution::Missing(_, _, _) => false,
        },
    ensures
        after == merged_over(w, base, current, desired, done.insert(q)),
        cafter == conflicts_over(w, base, current, desired, done.insert(q)),
{
    assert(merged_over(w, base, current, desired, done.insert(q)) =~= after);
    assert(cafter =~= conflicts_over(w, base, current, desired, done.insert(q)));
}

proof fn lemma_take_insert(keys: Seq<Seq<char>>, i: int)
    requires
        0 <= i < keys.len(),
    ensures
        keys.take(i + 1).to_set() == keys.take(i).to_set().insert(keys[i]),
{
    let t1 = keys.take(i + 1);
    let t0 = keys.take(i);
    assert(t1 =~= t0.push(keys[i]));
    assert forall|k: Seq<char>| t1.contains(k) <==> (t0.contains(k) || k == keys[i]) by {
        if t1.contains(k) {
            let j = choose|j: int| 0 <= j < t1.len() && #[trigger] t1[j] == k;
            if j < i {
                assert(t0[j] == k);
            }
        }
        if t0.contains(k) {
            let j = choose|j: int| 0 <= j < t0.len() && #[trigger] t0[j] == k;
            assert(t1[j] == k);
        }
        if k == keys[i] {
            assert(t1[i] == k);
        }
    }
    assert(t1.to_set() =~= t0.to_set().insert(keys[i]));
}

proof fn lemma_take_contains(keys: Seq<Seq<char>>, i: int, k: Seq<char>)
    requires
        0 <= i <= keys.len(),
        keys.take(i).to_set().contains(k),
    ensures
        keys.contains(k),
{
    let j = choose|j: int| 0 <= j < keys.take(i).len() && #[trigger] keys.take(i)[j] == k;
    assert(keys[j] == k);
}

/// Combines the change from `base` to `desired` with the current files. A path changed
/// on one side only takes that side; where both sides changed a text file, the texts
/// are merged; other overlaps, and text merges that fail, are conflicts, and then
/// nothing is merged.
pub fn merge(base: &Snapshot, current: &Snapshot, desired: &Snapshot, world: &World) -> (r: Result<Snapshot, Fault>)
    ensures
        merge_result(*world, base@, current@, desired@, r),
{
    let mut result = current.copy();
    let mut conflicts = Snapshot::new();
    let ghost w = *world;
    let nb = base.count();
    let mut i: usize = 0;
    proof {
        assert(base.keys().take(0).to_set() =~= Set::<Seq<char>>::empty());
        assert(merged_over(w, base@, current@, desired@, Set::empty()) =~= current@);
        assert(conflicts_over(w, base@, current@, desired@, Set::empty()) =~= conflicts@.dom());
    }
    while i < nb
        invariant
            nb == base.keys().len(),
            sorted(base.keys()),
            i <= nb,
            w == *world,
            forall|k: Seq<char>| #[trigger] base@.dom().contains(k) <==> base.keys().contains(k),
            result@ == merged_over(w, base@, current@, desired@, base.keys().take(i as int).to_set()),
            conflicts@.dom() == conflicts_over(w, base@, current@, desired@, base.keys().take(i as int).to_set()),
            forall|k: Seq<char>| base.keys().take(i as int).to_set().contains(k) ==> !(#[trigger] resolution(w, base@, current@, desired@, k) is Missing),
        decreases nb - i,
    {
        let path = base.path_at(i);
        proof {
            assert(base.keys().contains(base.keys()[i as int]));
            lemma_take_insert(base.keys(), i as int);
            assert(!base.keys().take(i as int).to_set().contains(path@)) by {
                if base.keys().take(i as int).to_set().contains(path@) {
                    let j = choose|j: int| 0 <= j < i && #[trigger] base.keys().take(i as int)[j] == path@;
                    assert(base.keys()[j] == base.keys()[i as int]);
                    crate::snapshot::lemma_sorted_distinct(base.keys(), j, i as int);
                }
            }
        }
        let ghost before = result@;
        let ghost cbefore = conflicts@.dom();
        let step = merge_path(path, base, current, desired, world, &mut result, &mut conflicts);
        match step {
            Ok(()) => {},
            Err(f) => {
                return Err(f);
            },
        }
        proof {
            lemma_merge_step(w, base@, current@, desired@, base.keys().take(i as int).to_set(), path@, before, result@, cbefore, conflicts@.dom());
        }
        i = i + 1;
    }
    let nd = desired.count();
    let ghost done0 = base@.dom();
    proof {
        assert(base.keys().take(nb as int) =~= base.keys());
        assert(base.keys().to_set() =~= base@.dom());
        assert(desired.keys().take(0).to_set() =~= Set::<Seq<char>>::empty());
        assert(done0.union(desired.keys().take(0).to_set()) =~= done0);
    }
    let mut j: usize = 0;
    while j < nd
        invariant
            nd == desired.keys().len(),
            sorted(desired.keys()),
            j <= nd,
            w == *world,
            done0 == base@.dom(),
            forall|k: Seq<char>| #[trigger] desired@.dom().contains(k) <==> desired.keys().contains(k),
            result@ == merged_over(w, base@, current@, desired@, done0.union(desired.keys().take(j as int).to_set())),
            conflicts@.dom() == conflicts_over(w, base@, current@, desired@, done0.union(desired.keys().take(j as int).to_set())),
            forall|k: Seq<char>| done0.union(desired.keys().take(j as int).to_set()).contains(k) ==> !(#[trigger] resolution(w, base@, current@, desired@, k) is Missing),
        decreases nd - j,
    {
        let path = desired.path_at(j);
        proof {
            assert(desired.keys().contains(desired.keys()[j as int]));
            lemma_take_insert(desired.keys(), j as int);
            assert(done0.union(desired.keys().take(j + 1).to_set()) =~= done0.union(desired.keys().take(j as int).to_set()).insert(path@));
        }
        if base.get(path.as_str()).is_some() {
            proof {
                assert(done0.union(desired.keys().take(j + 1).to_set()) =~= done0.union(desired.keys().take(j as int).to_set()));
            }
        } else {
            proof {
                assert(!desired.keys().take(j as int).to_set().contains(path@)) by {
                    if desired.keys().take(j as int).to_set().contains(path@) {
                        let k = choose|k: int| 0 <= k < j && #[trigger] desired.keys().take(j as int)[k] == path@;
                        assert(desired.keys()[k] == desired.keys()[j as int]);
                        crate::snapshot::lemma_sorted_distinct(desired.keys(), k, j as int);
                    }
                }
            }
            let ghost before = result@;
            let ghost cbefore = conflicts@.dom();
            let step = merge_path(path, base, current, desired, world, &mut result, &mut conflicts);
            match step {
                Ok(()) => {},
                Err(f) => {
                    return Err(f);
                },
            }
            proof {
                lemma_merge_step(w, base@, current@, desired@, done0.union(desired.keys().take(j as int).to_set()), path@, before, result@, cbefore, conflicts@.dom());
            }
        }
        j = j + 1;
    }
    let ghost done = done0.union(desired.keys().take(nd as int).to_set());
    proof {
        assert(desired.keys().take(nd as int) =~= desired.keys());
        assert(desired.keys().to_set() =~= desired@.dom());
        assert(done =~= base@.dom().union(desired@.dom()));
        assert forall|p: Seq<char>| !done.contains(p) implies #[trigger] resolution(w, base@, current@, desired@, p) == Resolution::Holds(file_at(current@, p)) by {}
        assert(result@ =~= merged(w, base@, current@, desired@));
        assert(!merge_missing(w, base@, current@, desired@)) by {
            if merge_missing(w, base@, current@, desired@) {
                let p = choose|p: Seq<char>| #[trigger] resolution(w, base@, current@, desired@, p) is Missing;
                assert(done.contains(p));
            }
        }
        assert(conflicts@.dom() =~= merge_conflicts(w, base@, current@, desired@));
    }
    if conflicts.count() > 0 {
        let list = conflicts.paths();
        proof {
            assert(conflicts@.dom().contains(conflicts.keys()[0]));
        }
        return Err(Fault::Refused(Refusal::Conflict(list)));
    }
    proof {
        assert(conflicts@.dom().len() == 0);
        assert(merge_conflicts(w, base@, current@, desired@) =~= Set::empty()) by {
            assert forall|p: Seq<char>| !merge_conflicts(w, base@, current@, desired@).contains(p) by {
                if conflicts@.dom().contains(p) {
                    vstd::set_lib::lemma_set_empty_equivalency_len(conflicts@.dom());
                }
            }
        }
    }
    Ok(result)
}

/// Merging a change that changes nothing keeps the current files, whatever they are.
pub proof fn law_merge_without_change_keeps_current(w: World, base: Files, current: Files)
    ensures
        !merge_missing(w, base, current, base),
        merge_conflicts(w, base, current, base).is_empty(),
        merged(w, base, current, base) == current,
{
    assert(merge_conflicts(w, base, current, base) =~= Set::empty());
    assert(merged(w, base, current, base) =~= current);
}

/// Where nothing changed since the base, the merge gives exactly the desired files.
pub proof fn law_merge_fast_forward(w: World, base: Files, desired: Files)
    ensures
        !merge_missing(w, base, base, desired),
        merge_conflicts(w, base, base, desired).is_empty(),
        merged(w, base, base, desired) == desired,
{
    assert(merge_conflicts(w, base, base, desired) =~= Set::empty());
    assert(merged(w, base, base, desired) =~= desired);
}

/// Where the current files already are the desired ones, the merge changes nothing.
pub proof fn law_merge_already_desired(w: World, base: Files, desired: Files)
    ensures
        !merge_missing(w, base, desired, desired),
        merge_conflicts(w, base, desired, desired).is_empty(),
        merged(w, base, desired, desired) == desired,
{
    assert(merge_conflicts(w, base, desired, desired) =~= Set::empty());
    assert(merged(w, base, desired, desired) =~= desired);
}

/// Paths that only one side changed never conflict, and take that side's file.
pub proof fn law_merge_one_sided(w: World, base: Files, current: Files, desired: Files, p: Seq<char>)
    requires
        file_at(current, p) == file_at(base, p) || file_at(desired, p) == file_at(base, p),
    ensures
        final_file(w, base, current, desired, p) == if file_at(current, p) == file_at(base, p) {
            file_at(desired, p)
        } else {
            file_at(current, p)
        },
        !merge_conflicts(w, base, current, desired).contains(p),
{
}

/// The private Git storage and shadow working tree of one real repository.
#[derive(Clone, Debug)]
pub struct Workspace {
    pub real: String,
    pub shadow: String,
    pub storage: String,
}

/// `root` joined with `file`, as `Path::join` builds it.
pub open spec fn joined(root: Seq<char>, file: Seq<char>) -> Seq<char> {
    if file.len() > 0 && file[0] == '/' {
        file
    } else if root.len() == 0 || root.last() == '/' {
        root + file
    } else {
        root + seq!['/'] + file
    }
}

/// `root` joined with `file`.
pub fn join_path(root: &String, file: &String) -> (r: String)
    ensures
        r@ == joined(root@, file@),
{
    let f = chars_of(file.as_str());
    if f.len() > 0 && f[0] == '/' {
        return file.clone();
    }
    let rc = chars_of(root.as_str());
    if rc.len() == 0 || rc[rc.len() - 1] == '/' {
        crate::text::concat(root.as_str(), file.as_str())
    } else {
        let with_slash = crate::text::concat(root.as_str(), "/");
        proof {
            reveal_strlit("/");
            assert(seq!['/'] == "/"@);
        }
        crate::text::concat(with_slash.as_str(), file.as_str())
    }
}

impl Workspace {
    /// Orders write number `k` of an operation: the shadow files become exactly `files`,
    /// and the shadow index records them.
    pub fn sync(&self, w: &World, k: usize, files: &Snapshot) -> (r: Result<(), Fault>)
        ensures
            r is Ok <==> w.performed(k as int, EffectView::Sync(files@)),
            r matches Err(f) ==> (k == w.done@.len() && (f matches Fault::Need(Need::Perform(j, x)) && j == k
                && x@ == EffectView::Sync(files@))) || (k != w.done@.len() && f matches Fault::Refused(Refusal::WorldMismatch)),
    {
        w.perform(k, Effect::Sync(files.copy()))
    }
}

} // verus!
