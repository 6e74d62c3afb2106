//! What the private Git storage lists, as the workspace reads it, and what the workspace
//! writes back: file lists, tree entries, index entries, file modes and write plans.
use vstd::prelude::*;
use crate::paths::{utf8, utf8_text};
use crate::text::{chars_of, string_from, concat};
use crate::hunks::{first_of, find_char, sub_chars};
use crate::snapshot::{Snapshot, File, FileView, ordered, lemma_ordered};
use crate::steps::opt_file_view;
use crate::world::Files;
use crate::workspace::{is_valid_path, valid_path, file_at};
use crate::error::Refusal;

verus! {

/// Where the NUL-terminated field that starts at `i` ends.
pub open spec fn field_end(b: Seq<u8>, i: int) -> int
    decreases b.len() - i,
{
    if i >= b.len() {
        b.len() as int
    } else if b[i] == 0u8 {
        i
    } else {
        field_end(b, i + 1)
    }
}

proof fn lemma_field_end(b: Seq<u8>, i: int)
    requires
        0 <= i <= b.len(),
    ensures
        i <= field_end(b, i) <= b.len(),
    decreases b.len() - i,
{
    if i < b.len() && b[i] != 0u8 {
        lemma_field_end(b, i + 1);
    }
}

/// The non-empty NUL-separated fields of `b` from `i` on.
pub open spec fn fields_from(b: Seq<u8>, i: int) -> Seq<Seq<u8>>
    decreases b.len() + 1 - i,
    via fields_from_decreases
{
    if i >= b.len() || i < 0 {
        Seq::empty()
    } else {
        let e = field_end(b, i);
        let rest = fields_from(b, e + 1);
        if e == i {
            rest
        } else {
            seq![b.subrange(i, e)] + rest
        }
    }
}

#[via_fn]
proof fn fields_from_decreases(b: Seq<u8>, i: int) {
    if 0 <= i < b.len() {
        lemma_field_end(b, i);
    }
}

fn field_end_at(b: &Vec<u8>, i: usize) -> (e: usize)
    requires
        i <= b@.len(),
    ensures
        e == field_end(b@, i as int),
        i <= e <= b@.len(),
{
    let mut e = i;
    while e < b.len() && b[e] != 0u8
        invariant
            i <= e <= b@.len(),
            field_end(b@, i as int) == field_end(b@, e as int),
        decreases b.len() - e,
    {
        e = e + 1;
    }
    e
}

fn bytes_range(b: &Vec<u8>, lo: usize, hi: usize) -> (r: Vec<u8>)
    requires
        lo <= hi <= b@.len(),
    ensures
        r@ == b@.subrange(lo as int, hi as int),
{
    let mut r: Vec<u8> = Vec::new();
    let mut k = lo;
    while k < hi
        invariant
            lo <= k <= hi <= b@.len(),
            r@ == b@.subrange(lo as int, k as int),
        decreases hi - k,
    {
        r.push(b[k]);
        k = k + 1;
    }
    r
}

/// The non-empty NUL-separated fields of `b`, in order.
pub fn fields(b: &Vec<u8>) -> (r: Vec<Vec<u8>>)
    ensures
        r@.map_values(|f: Vec<u8>| f@) == fields_from(b@, 0),
{
    let mut out: Vec<Vec<u8>> = Vec::new();
    let mut i: usize = 0;
    while i < b.len()
        invariant
            i <= b@.len(),
            fields_from(b@, 0) == out@.map_values(|f: Vec<u8>| f@) + fields_from(b@, i as int),
        decreases b.len() - i,
    {
        let e = field_end_at(b, i);
        if e > i {
            let f = bytes_range(b, i, e);
            let ghost before = out@.map_values(|f: Vec<u8>| f@);
            out.push(f);
            assert(out@.map_values(|f: Vec<u8>| f@) =~= before.push(b@.subrange(i as int, e as int)));
            assert(before + (seq![b@.subrange(i as int, e as int)] + fields_from(b@, e + 1))
                =~= out@.map_values(|f: Vec<u8>| f@) + fields_from(b@, e + 1));
        }
        if e < b.len() {
            i = e + 1;
        } else {
            i = e;
        }
    }
    assert(out@.map_values(|f: Vec<u8>| f@) + fields_from(b@, i as int) =~= out@.map_values(|f: Vec<u8>| f@));
    out
}

/// The paths that a NUL-separated file list names, if each is UTF-8.
pub open spec fn listed(fs: Seq<Seq<u8>>) -> Option<Seq<Seq<char>>>
    decreases fs.len(),
{
    if fs.len() == 0 {
        Some(Seq::empty())
    } else {
        match (utf8(fs[0]), listed(fs.drop_first())) {
            (Some(p), Some(rest)) => Some(seq![p] + rest),
            _ => None,
        }
    }
}

/// The paths of `git ls-files -z` output, in order; refused where one is not UTF-8.
pub fn capture(listing: &Vec<u8>) -> (r: Result<Vec<String>, Refusal>)
    ensures
        r matches Ok(v) ==> listed(fields_from(listing@, 0)) == Some(v@.map_values(|s: String| s@)),
        r matches Err(e) ==> listed(fields_from(listing@, 0)) is None && e is NotUtf8Filename,
{
    let fs = fields(listing);
    let ghost all = fs@.map_values(|f: Vec<u8>| f@);
    assert(all =~= fields_from(listing@, 0));
    let mut out: Vec<String> = Vec::new();
    let mut i: usize = 0;
    assert(all.skip(0) =~= all);
    while i < fs.len()
        invariant
            i <= fs@.len(),
            all == fs@.map_values(|f: Vec<u8>| f@),
            all == fields_from(listing@, 0),
            listed(all) == match listed(all.skip(i as int)) {
                Some(rest) => Some(out@.map_values(|s: String| s@) + rest),
                None => None::<Seq<Seq<char>>>,
            },
        decreases fs.len() - i,
    {
        assert(all.skip(i as int)[0] == fs@[i as int]@);
        assert(all.skip(i as int).drop_first() =~= all.skip(i + 1));
        match utf8_text(&fs[i]) {
            Some(p) => {
                let ghost before = out@.map_values(|s: String| s@);
                out.push(p);
                assert(out@.map_values(|s: String| s@) =~= before.push(p@));
                proof {
                    match listed(all.skip(i + 1)) {
                        Some(rest) => {
                            assert(before + (seq![p@] + rest) =~= out@.map_values(|s: String| s@) + rest);
                        },
                        None => {},
                    }
                }
            },
            None => {
                assert(utf8(all.skip(i as int)[0]) is None);
                assert(listed(all.skip(i as int)) is None);
                return Err(Refusal::NotUtf8Filename);
            },
        }
        i = i + 1;
    }
    assert(all.skip(i as int).len() == 0);
    assert(out@.map_values(|s: String| s@) + Seq::<Seq<char>>::empty() =~= out@.map_values(|s: String| s@));
    Ok(out)
}

/// One blob of a stored tree: its path, object id and executable bit.
#[derive(Debug)]
pub struct TreeEntry {
    pub path: String,
    pub object: String,
    pub executable: bool,
}

/// A tree entry, as values.
pub struct EntryView {
    pub path: Seq<char>,
    pub object: Seq<char>,
    pub executable: bool,
}

impl View for TreeEntry {
    type V = EntryView;

    open spec fn view(&self) -> EntryView {
        EntryView { path: self.path@, object: self.object@, executable: self.executable }
    }
}

/// How reading one `git ls-tree -rz` entry ends.
pub enum EntryRead {
    Entry(EntryView),
    Invalid,
    Unsupported,
    Unsafe(Seq<char>),
}

/// The `n`-th (from 0) space-separated field of `s`, as `str::split(' ')` cuts it.
pub open spec fn space_field(s: Seq<char>, n: nat) -> Option<Seq<char>>
    decreases n,
{
    let k = first_of(s, ' ');
    if n == 0 {
        Some(s.take(k))
    } else if k < s.len() {
        space_field(s.skip(k + 1), (n - 1) as nat)
    } else {
        None
    }
}

/// What one entry `mode type object<TAB>path` gives: a blob at a safe path.
pub open spec fn read_entry(text: Seq<char>) -> EntryRead {
    let t = first_of(text, '\t');
    if t >= text.len() {
        EntryRead::Invalid
    } else {
        let meta = text.take(t);
        let path = text.skip(t + 1);
        match (space_field(meta, 0), space_field(meta, 1)) {
            (Some(mode), Some(kind)) => if kind != "blob"@ {
                EntryRead::Unsupported
            } else if !is_valid_path(path) {
                EntryRead::Unsafe(path)
            } else {
                match space_field(meta, 2) {
                    Some(object) => EntryRead::Entry(EntryView { path, object, executable: mode == "100755"@ }),
                    None => EntryRead::Invalid,
                }
            },
            _ => EntryRead::Invalid,
        }
    }
}

/// The entries of `git ls-tree -rz` output, if every one is a UTF-8 blob entry at a safe
/// path.
pub open spec fn entries_of(fs: Seq<Seq<u8>>) -> Option<Seq<EntryView>>
    decreases fs.len(),
{
    if fs.len() == 0 {
        Some(Seq::empty())
    } else {
        match utf8(fs[0]) {
            Some(text) => match (read_entry(text), entries_of(fs.drop_first())) {
                (EntryRead::Entry(e), Some(rest)) => Some(seq![e] + rest),
                _ => None,
            },
            None => None,
        }
    }
}

fn space_field_at(s: &Vec<char>, n: usize) -> (r: Option<Vec<char>>)
    ensures
        match space_field(s@, n as nat) {
            Some(f) => r matches Some(v) && v@ == f,
            None => r is None,
        },
    decreases n,
{
    let k = find_char(s, ' ');
    if n == 0 {
        let f = sub_chars(s, 0, k);
        assert(f@ =~= s@.take(k as int));
        Some(f)
    } else if k < s.len() {
        let rest = sub_chars(s, k + 1, s.len());
        assert(rest@ =~= s@.skip(k + 1));
        space_field_at(&rest, n - 1)
    } else {
        None
    }
}

fn is_text(v: &Vec<char>, w: &str) -> (r: bool)
    ensures
        r == (v@ == w@),
{
    let c = chars_of(w);
    if v.len() != c.len() {
        return false;
    }
    let mut i: usize = 0;
    while i < v.len()
        invariant
            c@ == w@,
            v@.len() == c@.len(),
            i <= v.len(),
            forall|j: int| 0 <= j < i ==> v@[j] == c@[j],
        decreases v.len() - i,
    {
        if v[i] != c[i] {
            return false;
        }
        i = i + 1;
    }
    assert(v@ =~= c@);
    true
}

fn entry(text: &Vec<char>) -> (r: Result<TreeEntry, Refusal>)
    ensures
        match read_entry(text@) {
            EntryRead::Entry(e) => r matches Ok(x) && x@ == e,
            EntryRead::Invalid => r matches Err(Refusal::InvalidTreeListing),
            EntryRead::Unsupported => r matches Err(Refusal::UnsupportedTreeEntry),
            EntryRead::Unsafe(p) => r matches Err(Refusal::UnsafePath(q)) && q@ == p,
        },
{
    let t = find_char(text, '\t');
    if t >= text.len() {
        return Err(Refusal::InvalidTreeListing);
    }
    let meta = sub_chars(text, 0, t);
    let path = sub_chars(text, t + 1, text.len());
    assert(meta@ =~= text@.take(t as int));
    assert(path@ =~= text@.skip(t + 1));
    let mode = match space_field_at(&meta, 0) {
        Some(m) => m,
        None => {
            return Err(Refusal::InvalidTreeListing);
        },
    };
    let kind = match space_field_at(&meta, 1) {
        Some(k) => k,
        None => {
            return Err(Refusal::InvalidTreeListing);
        },
    };
    if !is_text(&kind, "blob") {
        return Err(Refusal::UnsupportedTreeEntry);
    }
    let p = string_from(&path);
    if !valid_path(p.as_str()) {
        return Err(Refusal::UnsafePath(p));
    }
    match space_field_at(&meta, 2) {
        Some(object) => Ok(TreeEntry { path: p, object: string_from(&object), executable: is_text(&mode, "100755") }),
        None => Err(Refusal::InvalidTreeListing),
    }
}

/// The blob entries of `git ls-tree -rz` output, in order: refused where one is not
/// UTF-8, malformed, not a blob, or at an unsafe path.
pub fn load(listing: &Vec<u8>) -> (r: Result<Vec<TreeEntry>, Refusal>)
    ensures
        r matches Ok(v) ==> entries_of(fields_from(listing@, 0)) == Some(v@.map_values(|e: TreeEntry| e@)),
        r is Err ==> entries_of(fields_from(listing@, 0)) is None,
{
    let fs = fields(listing);
    let ghost all = fs@.map_values(|f: Vec<u8>| f@);
    assert(all =~= fields_from(listing@, 0));
    let mut out: Vec<TreeEntry> = Vec::new();
    let mut i: usize = 0;
    assert(all.skip(0) =~= all);
    while i < fs.len()
        invariant
            i <= fs@.len(),
            all == fs@.map_values(|f: Vec<u8>| f@),
            all == fields_from(listing@, 0),
            entries_of(all) == match entries_of(all.skip(i as int)) {
                Some(rest) => Some(out@.map_values(|e: TreeEntry| e@) + rest),
                None => None::<Seq<EntryView>>,
            },
        decreases fs.len() - i,
    {
        assert(all.skip(i as int)[0] == fs@[i as int]@);
        assert(all.skip(i as int).drop_first() =~= all.skip(i + 1));
        let text = match utf8_text(&fs[i]) {
            Some(t) => t,
            None => {
                assert(utf8(all.skip(i as int)[0]) is None);
                assert(entries_of(all.skip(i as int)) is None);
                return Err(Refusal::InvalidTreeListing);
            },
        };
        let tc = chars_of(text.as_str());
        let e = match entry(&tc) {
            Ok(e) => e,
            Err(x) => {
                assert(utf8(all.skip(i as int)[0]) == Some(tc@));
                assert(entries_of(all.skip(i as int)) is None);
                return Err(x);
            },
        };
        let ghost before = out@.map_values(|e: TreeEntry| e@);
        let ghost ev = e@;
        out.push(e);
        assert(out@.map_values(|e: TreeEntry| e@) =~= before.push(ev));
        proof {
            match entries_of(all.skip(i + 1)) {
                Some(rest) => {
                    assert(before + (seq![ev] + rest) =~= out@.map_values(|e: TreeEntry| e@) + rest);
                },
                None => {},
            }
        }
        i = i + 1;
    }
    assert(all.skip(i as int).len() == 0);
    assert(out@.map_values(|e: TreeEntry| e@) + Seq::<EntryView>::empty() =~= out@.map_values(|e: TreeEntry| e@));
    Ok(out)
}

/// The writes that turn files `c` into files `d`, path by path in the given order: each
/// path whose file differs, with what it must hold.
pub open spec fn writes_along(c: Files, d: Files, paths: Seq<Seq<char>>) -> Seq<(Seq<char>, Option<FileView>)>
    decreases paths.len(),
{
    if paths.len() == 0 {
        Seq::empty()
    } else {
        let p = paths[0];
        let rest = writes_along(c, d, paths.drop_first());
        if file_at(c, p) != file_at(d, p) {
            seq![(p, file_at(d, p))] + rest
        } else {
            rest
        }
    }
}

/// The writes that turn files `c` into files `d`, in path order.
pub open spec fn writes(c: Files, d: Files) -> Seq<(Seq<char>, Option<FileView>)> {
    writes_along(c, d, ordered(c.dom().union(d.dom())))
}

pub open spec fn write_views(v: Seq<(String, Option<File>)>) -> Seq<(Seq<char>, Option<FileView>)> {
    v.map_values(|w: (String, Option<File>)| (w.0@, crate::steps::opt_file_view(w.1)))
}

/// The writes that replace files `current` by files `desired`: every path whose file
/// differs, in path order, with the file it must hold or none to delete it. Every path
/// is checked against `current` before any write.
pub fn replace(current: &Snapshot, desired: &Snapshot) -> (r: Vec<(String, Option<File>)>)
    ensures
        write_views(r@) == writes(current@, desired@),
{
    let mut all = current.copy();
    all.extend(desired);
    let n = all.count();
    let ghost paths = all.keys();
    proof {
        assert forall|k: Seq<char>| paths.to_set().contains(k) <==> current@.dom().union(desired@.dom()).contains(k) by {
            assert(all@.dom().contains(k) <==> paths.contains(k));
        }
        assert(paths.to_set() =~= current@.dom().union(desired@.dom()));
        lemma_ordered(paths, current@.dom().union(desired@.dom()));
        assert(paths.skip(0) =~= paths);
    }
    let mut out: Vec<(String, Option<File>)> = Vec::new();
    let mut i: usize = 0;
    while i < n
        invariant
            i <= n,
            n == paths.len(),
            paths == all.keys(),
            writes(current@, desired@) == write_views(out@) + writes_along(current@, desired@, paths.skip(i as int)),
        decreases n - i,
    {
        let path = all.path_at(i);
        assert(paths.skip(i as int)[0] == path@);
        assert(paths.skip(i as int).drop_first() =~= paths.skip(i + 1));
        let c = current.get(path.as_str());
        let d = desired.get(path.as_str());
        let same = match (c, d) {
            (Some(x), Some(y)) => x.same(y),
            (None, None) => true,
            _ => false,
        };
        if !same {
            let f = match d {
                Some(y) => Some(y.copy()),
                None => None,
            };
            let ghost before = write_views(out@);
            let item = (path.clone(), f);
            let ghost iv = (item.0@, crate::steps::opt_file_view(item.1));
            out.push(item);
            assert(write_views(out@) =~= before.push(iv));
            assert(before + (seq![iv] + writes_along(current@, desired@, paths.skip(i + 1)))
                =~= write_views(out@) + writes_along(current@, desired@, paths.skip(i + 1)));
        }
        i = i + 1;
    }
    assert(paths.skip(i as int).len() == 0);
    assert(write_views(out@) + Seq::<(Seq<char>, Option<FileView>)>::empty() =~= write_views(out@));
    out
}

/// The permissions a written file gets: the user's read and write bits of the existing
/// file (0o600 for a new one), and execute bits only for an executable file, keeping the
/// existing ones or else the owner's.
pub open spec fn mode_for(existing: u32, executable: bool) -> u32 {
    let execute = if executable {
        if existing & 0o111u32 != 0u32 { existing & 0o111u32 } else { 0o100u32 }
    } else {
        0u32
    };
    (existing & 0o666u32) | execute
}

/// The permissions to write a file with, given the existing file's, if any.
pub fn file_mode(existing: Option<u32>, executable: bool) -> (r: u32)
    ensures
        r == mode_for(match existing { Some(m) => m, None => 0o600u32 }, executable),
{
    let existing = match existing {
        Some(m) => m,
        None => 0o600u32,
    };
    let execute = if executable {
        if existing & 0o111u32 != 0u32 { existing & 0o111u32 } else { 0o100u32 }
    } else {
        0u32
    };
    (existing & 0o666u32) | execute
}

/// Writing a file never widens its read and write permissions, and leaves it executable
/// exactly when the file is.
pub proof fn law_mode_keeps_permissions(existing: u32, executable: bool)
    ensures
        mode_for(existing, executable) & 0o666u32 == existing & 0o666u32,
        (mode_for(existing, executable) & 0o111u32 != 0u32) == executable,
{
    let m = existing;
    if executable {
        if m & 0o111u32 != 0u32 {
            assert(((m & 0o666u32) | (m & 0o111u32)) & 0o666u32 == m & 0o666u32) by (bit_vector);
            assert((((m & 0o666u32) | (m & 0o111u32)) & 0o111u32 != 0u32) == (m & 0o111u32 != 0u32)) by (bit_vector);
        } else {
            assert(((m & 0o666u32) | 0o100u32) & 0o666u32 == m & 0o666u32) by (bit_vector);
            assert(((m & 0o666u32) | 0o100u32) & 0o111u32 != 0u32) by (bit_vector);
        }
    } else {
        assert(((m & 0o666u32) | 0u32) & 0o666u32 == m & 0o666u32) by (bit_vector);
        assert(((m & 0o666u32) | 0u32) & 0o111u32 == 0u32) by (bit_vector);
    }
}

/// The index entry that stores blob `hash` at `path`: `mode hash<TAB>path<NUL>`, with
/// the hash trimmed as `git hash-object` prints it.
pub open spec fn index_line(executable: bool, hash: Seq<char>, path: Seq<char>) -> Seq<char> {
    (if executable { "100755"@ } else { "100644"@ }) + " "@ + crate::server::trimmed(hash) + "\t"@ + path + "\0"@
}

/// The index entry that stores blob `hash` at `path`.
pub fn index_entry(executable: bool, hash: &str, path: &str) -> (r: String)
    ensures
        r@ == index_line(executable, hash@, path@),
{
    let mode = if executable { "100755" } else { "100644" };
    let h = string_from(&crate::server::trim(&chars_of(hash)));
    let a = concat(mode, " ");
    let b = concat(a.as_str(), h.as_str());
    let c = concat(b.as_str(), "\t");
    let d = concat(c.as_str(), path);
    concat(d.as_str(), "\0")
}


/// The files on disk, as read before the writes, by their views.
pub open spec fn disk_views(disk: Seq<Option<File>>) -> Seq<Option<FileView>> {
    disk.map_values(|f: Option<File>| opt_file_view(f))
}

/// Write `i` of a plan still finds on disk the file that the writes start from.
pub open spec fn disk_agrees(
    plan: Seq<(Seq<char>, Option<FileView>)>,
    current: Files,
    disk: Seq<Option<FileView>>,
    i: int,
) -> bool {
    disk[i] == file_at(current, plan[i].0)
}

/// Whether two files, either of which may be absent, are the same.
fn same_opt(a: &Option<File>, b: Option<&File>) -> (r: bool)
    ensures
        r == (opt_file_view(*a) == (match b { Some(f) => Some(f@), None => None::<FileView> })),
{
    match (a, b) {
        (Some(x), Some(y)) => x.same(y),
        (None, None) => true,
        _ => false,
    }
}

/// Whether the file read at `path` is still the one the writes start from: the same
/// file as in `current`, or absent where `current` has none.
pub fn unchanged(path: &str, current: &Snapshot, on_disk: &Option<File>) -> (r: bool)
    ensures
        r == (opt_file_view(*on_disk) == file_at(current@, path@)),
{
    same_opt(on_disk, current.get(path))
}

/// Checks a write plan before any of it is written: `on_disk[i]` is what the path of
/// write `i` holds now. Every path must hold what `current` has there; otherwise the
/// first that does not is named and nothing may be written.
pub fn preflight(plan: &Vec<(String, Option<File>)>, current: &Snapshot, on_disk: &Vec<Option<File>>) -> (r: Result<(), Refusal>)
    requires
        on_disk@.len() == plan@.len(),
    ensures
        r is Ok <==> forall|i: int| 0 <= i < plan@.len()
            ==> #[trigger] disk_agrees(write_views(plan@), current@, disk_views(on_disk@), i),
        r matches Err(e) ==> exists|i: int| 0 <= i < plan@.len()
            && !#[trigger] disk_agrees(write_views(plan@), current@, disk_views(on_disk@), i)
            && (forall|j: int| 0 <= j < i ==> disk_agrees(write_views(plan@), current@, disk_views(on_disk@), j))
            && (e matches Refusal::FileChanged(p) && p@ == plan@[i].0@),
{
    let ghost pv = write_views(plan@);
    let ghost dv = disk_views(on_disk@);
    let mut i: usize = 0;
    while i < plan.len()
        invariant
            on_disk@.len() == plan@.len(),
            pv == write_views(plan@),
            dv == disk_views(on_disk@),
            i <= plan@.len(),
            forall|j: int| 0 <= j < i ==> disk_agrees(pv, current@, dv, j),
        decreases plan.len() - i,
    {
        let path = &plan[i].0;
        assert(pv[i as int].0 == path@);
        assert(dv[i as int] == opt_file_view(on_disk@[i as int]));
        if !unchanged(path.as_str(), current, &on_disk[i]) {
            assert(!disk_agrees(pv, current@, dv, i as int));
            return Err(Refusal::FileChanged(path.clone()));
        }
        assert(disk_agrees(pv, current@, dv, i as int));
        i = i + 1;
    }
    Ok(())
}

/// The paths of `written`, by their views.
pub open spec fn path_views(written: Seq<String>) -> Seq<Seq<char>> {
    written.map_values(|s: String| s@)
}

/// The writes that undo `written`, newest first: each path that still holds what
/// `desired` has there (`disk[i]` for path `i`) gets back what `current` had; a path
/// that holds anything else was changed by someone else since, and is left as it is.
pub open spec fn restores(written: Seq<Seq<char>>, disk: Seq<Option<FileView>>, current: Files, desired: Files)
    -> Seq<(Seq<char>, Option<FileView>)>
    decreases written.len(),
{
    if written.len() == 0 {
        Seq::empty()
    } else {
        let k = written.len() - 1;
        let rest = restores(written.take(k), disk.take(k), current, desired);
        if disk[k] == file_at(desired, written[k]) {
            seq![(written[k], file_at(current, written[k]))] + rest
        } else {
            rest
        }
    }
}

/// The writes that roll back the paths of `written`, written in that order on the way
/// from `current` to `desired`, after a later write failed: `on_disk[i]` is what path
/// `i` holds now.
pub fn rollback(written: &Vec<String>, current: &Snapshot, desired: &Snapshot, on_disk: &Vec<Option<File>>)
    -> (r: Vec<(String, Option<File>)>)
    requires
        on_disk@.len() == written@.len(),
    ensures
        write_views(r@) == restores(path_views(written@), disk_views(on_disk@), current@, desired@),
{
    let ghost wv = path_views(written@);
    let ghost dv = disk_views(on_disk@);
    let mut out: Vec<(String, Option<File>)> = Vec::new();
    let mut i: usize = written.len();
    assert(wv.take(i as int) =~= wv);
    assert(dv.take(i as int) =~= dv);
    while i > 0
        invariant
            on_disk@.len() == written@.len(),
            wv == path_views(written@),
            dv == disk_views(on_disk@),
            i <= written@.len(),
            restores(wv, dv, current@, desired@)
                == write_views(out@) + restores(wv.take(i as int), dv.take(i as int), current@, desired@),
        decreases i,
    {
        let k = i - 1;
        let path = &written[k];
        let ghost tw = wv.take(i as int);
        let ghost td = dv.take(i as int);
        assert(tw.take(k as int) =~= wv.take(k as int));
        assert(td.take(k as int) =~= dv.take(k as int));
        assert(tw[k as int] == path@);
        assert(td[k as int] == opt_file_view(on_disk@[k as int]));
        if same_opt(&on_disk[k], desired.get(path.as_str())) {
            let f = match current.get(path.as_str()) {
                Some(x) => Some(x.copy()),
                None => None,
            };
            let ghost before = write_views(out@);
            let item = (path.clone(), f);
            let ghost iv = (item.0@, opt_file_view(item.1));
            out.push(item);
            assert(write_views(out@) =~= before.push(iv));
            assert(before + (seq![iv] + restores(wv.take(k as int), dv.take(k as int), current@, desired@))
                =~= write_views(out@) + restores(wv.take(k as int), dv.take(k as int), current@, desired@));
        }
        i = k;
    }
    assert(write_views(out@) + Seq::<(Seq<char>, Option<FileView>)>::empty() =~= write_views(out@));
    out
}

/// Files `m` with what was found at known paths laid over them, in order: a path found
/// holding a file takes that file; a path found empty leaves `m` as it is.
pub open spec fn overlay(m: Files, found: Seq<(Seq<char>, Option<FileView>)>) -> Files
    decreases found.len(),
{
    if found.len() == 0 {
        m
    } else {
        let base = overlay(m, found.drop_last());
        match found.last().1 {
            Some(f) => base.insert(found.last().0, f),
            None => base,
        }
    }
}

/// The captured files, with each known path that was found on disk taking the file
/// found there, also where the file list left it out (an ignored file the session knows).
pub fn with_known(captured: &Snapshot, known_on_disk: &Vec<(String, Option<File>)>) -> (r: Snapshot)
    ensures
        r@ == overlay(captured@, write_views(known_on_disk@)),
{
    let ghost kv = write_views(known_on_disk@);
    let mut r = captured.copy();
    let mut i: usize = 0;
    assert(kv.take(0) =~= Seq::<(Seq<char>, Option<FileView>)>::empty());
    while i < known_on_disk.len()
        invariant
            kv == write_views(known_on_disk@),
            i <= known_on_disk@.len(),
            r@ == overlay(captured@, kv.take(i as int)),
        decreases known_on_disk.len() - i,
    {
        assert(kv.take(i + 1).drop_last() =~= kv.take(i as int));
        assert(kv.take(i + 1).last() == kv[i as int]);
        let entry = &known_on_disk[i];
        match &entry.1 {
            Some(f) => {
                r.insert(entry.0.clone(), f.copy());
            },
            None => {},
        }
        i = i + 1;
    }
    assert(kv.take(i as int) =~= kv);
    r
}

} // verus!
