//! What the controller learns from, and asks of, the world outside it: Git objects,
//! working-tree contents, text merges and diffs, and the writes it orders.
//!
//! A controller operation is a function of its state and a `World` of answers. When an
//! answer is missing the operation stops with `Fault::Need`; the caller obtains the
//! answer, records it, and runs the operation again from the same state. Writes are
//! answers too: the `k`-th write an operation orders must be recorded as done before
//! the operation continues past it.
use vstd::prelude::*;
use crate::snapshot::{Snapshot, FileView, same_bytes, copy_bytes};
use crate::text::chars_of;
use crate::error::{Fault, Refusal};

verus! {

/// The first value recorded for key `k`.
pub open spec fn lookup<K, V>(s: Seq<(K, V)>, k: K) -> Option<V>
    decreases s.len(),
{
    if s.len() == 0 {
        None
    } else if s[0].0 == k {
        Some(s[0].1)
    } else {
        lookup(s.drop_first(), k)
    }
}

proof fn lemma_lookup_step<K, V>(s: Seq<(K, V)>, i: int, k: K)
    requires
        0 <= i < s.len(),
        s[i].0 != k,
    ensures
        lookup(s.skip(i), k) == lookup(s.skip(i + 1), k),
{
    assert(s.skip(i).drop_first() =~= s.skip(i + 1));
}

proof fn lemma_lookup_found<K, V>(s: Seq<(K, V)>, i: int, k: K)
    requires
        0 <= i < s.len(),
        s[i].0 == k,
    ensures
        lookup(s.skip(i), k) == Some(s[i].1),
{
}

/// The two working trees: the user's repository and Tandem's private shadow.
#[derive(Clone, Copy, Debug, PartialEq, Eq, Structural)]
pub enum Place {
    Real,
    Shadow,
}

/// A write the controller orders.
#[derive(Debug)]
pub enum Effect {
    /// Make the shadow working tree hold exactly these files.
    Sync(Snapshot),
    /// Change the real working tree from the first snapshot to the second.
    Replace(Snapshot, Snapshot),
}

/// What an effect does, as values.
pub enum EffectView {
    Sync(Map<Seq<char>, FileView>),
    Replace(Map<Seq<char>, FileView>, Map<Seq<char>, FileView>),
}

impl View for Effect {
    type V = EffectView;

    open spec fn view(&self) -> EffectView {
        match self {
            Effect::Sync(s) => EffectView::Sync(s@),
            Effect::Replace(a, b) => EffectView::Replace(a@, b@),
        }
    }
}

impl Effect {
    /// A copy of this effect.
    pub fn copy(&self) -> (r: Effect)
        ensures
            r@ == self@,
    {
        match self {
            Effect::Sync(s) => Effect::Sync(s.copy()),
            Effect::Replace(a, b) => Effect::Replace(a.copy(), b.copy()),
        }
    }

    /// Whether two effects are the same write.
    pub fn same(&self, other: &Effect) -> (r: bool)
        ensures
            r == (self@ == other@),
    {
        match (self, other) {
            (Effect::Sync(a), Effect::Sync(b)) => a.same(b),
            (Effect::Replace(a, b), Effect::Replace(c, d)) => a.same(c) && b.same(d),
            _ => false,
        }
    }
}

/// A missing answer.
#[derive(Debug)]
pub enum Need {
    /// The files of a stored tree.
    Load(String),
    /// The id under which these files are stored as a tree.
    Store(Snapshot),
    /// The files of a working tree, including the paths of the second snapshot that exist
    /// there, read after the given number of this operation's writes.
    Capture(Place, Snapshot, usize),
    /// `git merge-file` of current, base and desired contents: the merged bytes, or none on
    /// a conflict.
    TextMerge(Vec<u8>, Vec<u8>, Vec<u8>),
    /// `git diff` output between two trees, optionally limited to one path, with the given
    /// number of context lines.
    Diff(String, String, Option<String>, usize),
    /// Perform write number `k` of this operation.
    Perform(usize, Effect),
}

/// Answers about stored trees: an id and its files.
#[derive(Debug)]
pub struct Stored {
    pub tree: String,
    pub files: Snapshot,
}

/// A working tree read: where, which known paths, after how many writes, and what was found.
#[derive(Debug)]
pub struct Captured {
    pub place: Place,
    pub known: Snapshot,
    pub epoch: usize,
    pub files: Snapshot,
}

/// A text merge and its result.
#[derive(Debug)]
pub struct TextMerge {
    pub base: Vec<u8>,
    pub current: Vec<u8>,
    pub desired: Vec<u8>,
    pub merged: Option<Vec<u8>>,
}

/// A diff and its output.
#[derive(Debug)]
pub struct DiffText {
    pub base: String,
    pub tree: String,
    pub file: Option<String>,
    pub context: usize,
    pub text: String,
}

/// Everything learned so far while running one operation.
#[derive(Debug)]
pub struct World {
    pub trees: Vec<Stored>,
    pub captures: Vec<Captured>,
    pub merges: Vec<TextMerge>,
    pub diffs: Vec<DiffText>,
    pub done: Vec<Effect>,
}

pub type Files = Map<Seq<char>, FileView>;

pub open spec fn opt_view(o: Option<String>) -> Option<Seq<char>> {
    match o {
        Some(s) => Some(s@),
        None => None,
    }
}

pub open spec fn opt_bytes(o: Option<Vec<u8>>) -> Option<Seq<u8>> {
    match o {
        Some(s) => Some(s@),
        None => None,
    }
}

impl World {
    /// Files by tree id.
    pub open spec fn tree_table(&self) -> Seq<(Seq<char>, Files)> {
        self.trees@.map_values(|t: Stored| (t.tree@, t.files@))
    }

    /// Tree ids by files.
    pub open spec fn id_table(&self) -> Seq<(Files, Seq<char>)> {
        self.trees@.map_values(|t: Stored| (t.files@, t.tree@))
    }

    pub open spec fn capture_table(&self) -> Seq<((Place, Files, usize), Files)> {
        self.captures@.map_values(|c: Captured| ((c.place, c.known@, c.epoch as usize), c.files@))
    }

    pub open spec fn merge_table(&self) -> Seq<((Seq<u8>, Seq<u8>, Seq<u8>), Option<Seq<u8>>)> {
        self.merges@.map_values(|m: TextMerge| ((m.base@, m.current@, m.desired@), opt_bytes(m.merged)))
    }

    pub open spec fn diff_table(&self) -> Seq<((Seq<char>, Seq<char>, Option<Seq<char>>, usize), Seq<char>)> {
        self.diffs@.map_values(|d: DiffText| ((d.base@, d.tree@, opt_view(d.file), d.context as usize), d.text@))
    }

    /// The files stored under `tree`, if known.
    pub open spec fn loaded(&self, tree: Seq<char>) -> Option<Files> {
        lookup(self.tree_table(), tree)
    }

    /// The tree id of `files`, if known.
    pub open spec fn stored(&self, files: Files) -> Option<Seq<char>> {
        lookup(self.id_table(), files)
    }

    /// A working tree read, if known.
    pub open spec fn captured(&self, place: Place, known: Files, epoch: usize) -> Option<Files> {
        lookup(self.capture_table(), (place, known, epoch))
    }

    /// The result of a text merge of current `c`, base `b` and desired `d`, if known.
    pub open spec fn text_merged(&self, b: Seq<u8>, c: Seq<u8>, d: Seq<u8>) -> Option<Option<Seq<u8>>> {
        lookup(self.merge_table(), (b, c, d))
    }

    /// A diff's output, if known.
    pub open spec fn diffed(&self, base: Seq<char>, tree: Seq<char>, file: Option<Seq<char>>, context: usize) -> Option<Seq<char>> {
        lookup(self.diff_table(), (base, tree, file, context))
    }

    /// Whether the `k`-th write is recorded as done, and was `e`.
    pub open spec fn performed(&self, k: int, e: EffectView) -> bool {
        0 <= k < self.done@.len() && self.done@[k]@ == e
    }
}

/// Whether `s` is a plausible Git object id: at least 40 hexadecimal digits.
pub open spec fn is_tree_id(s: Seq<char>) -> bool {
    s.len() >= 40 && forall|i: int| 0 <= i < s.len() ==> is_hex_digit(#[trigger] s[i])
}

pub open spec fn is_hex_digit(c: char) -> bool {
    ('0' <= c <= '9') || ('a' <= c <= 'f') || ('A' <= c <= 'F')
}

/// Whether `s` is a plausible Git object id.
pub fn tree_id(s: &str) -> (r: bool)
    ensures
        r == is_tree_id(s@),
{
    let v = chars_of(s);
    if v.len() < 40 {
        return false;
    }
    let mut i: usize = 0;
    while i < v.len()
        invariant
            i <= v.len(),
            v@ == s@,
            forall|j: int| 0 <= j < i ==> is_hex_digit(#[trigger] v@[j]),
        decreases v.len() - i,
    {
        let c = v[i];
        if !(('0' <= c && c <= '9') || ('a' <= c && c <= 'f') || ('A' <= c && c <= 'F')) {
            assert(!is_hex_digit(v@[i as int]));
            return false;
        }
        i = i + 1;
    }
    true
}


/// Copies of optional bytes.
pub fn copy_opt_bytes(o: &Option<Vec<u8>>) -> (r: Option<Vec<u8>>)
    ensures
        opt_bytes(r) == opt_bytes(*o),
{
    match o {
        Some(b) => Some(copy_bytes(b)),
        None => None,
    }
}

impl World {
    /// A world with no answers yet.
    pub fn new() -> (r: World)
        ensures
            r.trees@.len() == 0,
            r.captures@.len() == 0,
            r.merges@.len() == 0,
            r.diffs@.len() == 0,
            r.done@.len() == 0,
    {
        World { trees: Vec::new(), captures: Vec::new(), merges: Vec::new(), diffs: Vec::new(), done: Vec::new() }
    }

    /// The files stored under `tree`.
    pub fn load(&self, tree: &String) -> (r: Result<Snapshot, Fault>)
        ensures
            r matches Ok(s) ==> is_tree_id(tree@) && self.loaded(tree@) == Some(s@),
            r matches Err(f) ==> (!is_tree_id(tree@) && f matches Fault::Refused(Refusal::InvalidTree))
                || (is_tree_id(tree@) && self.loaded(tree@) is None && (f matches Fault::Need(Need::Load(t)) && t@ == tree@)),
    {
        if !tree_id(tree.as_str()) {
            return Err(Fault::Refused(Refusal::InvalidTree));
        }
        let ghost table = self.tree_table();
        assert(table.skip(0) =~= table);
        let mut i: usize = 0;
        while i < self.trees.len()
            invariant
                i <= self.trees@.len(),
                table == self.tree_table(),
                is_tree_id(tree@),
                table.len() == self.trees@.len(),
                lookup(table, tree@) == lookup(table.skip(i as int), tree@),
            decreases self.trees@.len() - i,
        {
            assert(table[i as int] == (self.trees@[i as int].tree@, self.trees@[i as int].files@));
            if self.trees[i].tree == *tree {
                proof {
                    lemma_lookup_found(table, i as int, tree@);
                }
                return Ok(self.trees[i].files.copy());
            }
            proof {
                lemma_lookup_step(table, i as int, tree@);
            }
            i = i + 1;
        }
        assert(table.skip(i as int).len() == 0);
        Err(Fault::Need(Need::Load(tree.clone())))
    }

    /// The tree id of `files`.
    pub fn store(&self, files: &Snapshot) -> (r: Result<String, Fault>)
        ensures
            r matches Ok(t) ==> self.stored(files@) == Some(t@),
            r matches Err(f) ==> self.stored(files@) is None && (f matches Fault::Need(Need::Store(s)) && s@ == files@),
    {
        let ghost table = self.id_table();
        assert(table.skip(0) =~= table);
        let mut i: usize = 0;
        while i < self.trees.len()
            invariant
                i <= self.trees@.len(),
                table == self.id_table(),
                table.len() == self.trees@.len(),
                lookup(table, files@) == lookup(table.skip(i as int), files@),
            decreases self.trees@.len() - i,
        {
            assert(table[i as int] == (self.trees@[i as int].files@, self.trees@[i as int].tree@));
            if self.trees[i].files.same(files) {
                proof {
                    lemma_lookup_found(table, i as int, files@);
                }
                return Ok(self.trees[i].tree.clone());
            }
            proof {
                lemma_lookup_step(table, i as int, files@);
            }
            i = i + 1;
        }
        assert(table.skip(i as int).len() == 0);
        Err(Fault::Need(Need::Store(files.copy())))
    }

    /// The files of a working tree with the known paths, read after `epoch` writes.
    pub fn capture(&self, place: Place, known: &Snapshot, epoch: usize) -> (r: Result<Snapshot, Fault>)
        ensures
            r matches Ok(s) ==> self.captured(place, known@, epoch) == Some(s@),
            r matches Err(f) ==> self.captured(place, known@, epoch) is None && (f matches Fault::Need(Need::Capture(p, k, e)) && p == place && k@ == known@ && e == epoch),
    {
        let ghost table = self.capture_table();
        let ghost key = (place, known@, epoch);
        assert(table.skip(0) =~= table);
        let mut i: usize = 0;
        while i < self.captures.len()
            invariant
                i <= self.captures@.len(),
                table == self.capture_table(),
                key == (place, known@, epoch),
                table.len() == self.captures@.len(),
                lookup(table, key) == lookup(table.skip(i as int), key),
            decreases self.captures@.len() - i,
        {
            let c = &self.captures[i];
            assert(table[i as int] == ((c.place, c.known@, c.epoch), c.files@));
            if c.place == place && c.epoch == epoch && c.known.same(known) {
                proof {
                    lemma_lookup_found(table, i as int, key);
                }
                return Ok(c.files.copy());
            }
            proof {
                lemma_lookup_step(table, i as int, key);
            }
            i = i + 1;
        }
        assert(table.skip(i as int).len() == 0);
        Err(Fault::Need(Need::Capture(place, known.copy(), epoch)))
    }

    /// The text merge of current `c` with desired `d` over base `b`.
    pub fn text_merge(&self, b: &Vec<u8>, c: &Vec<u8>, d: &Vec<u8>) -> (r: Result<Option<Vec<u8>>, Fault>)
        ensures
            r matches Ok(o) ==> self.text_merged(b@, c@, d@) == Some(opt_bytes(o)),
            r matches Err(f) ==> self.text_merged(b@, c@, d@) is None && (f matches Fault::Need(Need::TextMerge(x, y, z)) && x@ == b@ && y@ == c@ && z@ == d@),
    {
        let ghost table = self.merge_table();
        let ghost key = (b@, c@, d@);
        assert(table.skip(0) =~= table);
        let mut i: usize = 0;
        while i < self.merges.len()
            invariant
                i <= self.merges@.len(),
                table == self.merge_table(),
                key == (b@, c@, d@),
                table.len() == self.merges@.len(),
                lookup(table, key) == lookup(table.skip(i as int), key),
            decreases self.merges@.len() - i,
        {
            let m = &self.merges[i];
            assert(table[i as int] == ((m.base@, m.current@, m.desired@), opt_bytes(m.merged)));
            if same_bytes(&m.base, b) && same_bytes(&m.current, c) && same_bytes(&m.desired, d) {
                proof {
                    lemma_lookup_found(table, i as int, key);
                }
                return Ok(copy_opt_bytes(&m.merged));
            }
            proof {
                lemma_lookup_step(table, i as int, key);
            }
            i = i + 1;
        }
        assert(table.skip(i as int).len() == 0);
        Err(Fault::Need(Need::TextMerge(copy_bytes(b), copy_bytes(c), copy_bytes(d))))
    }

    /// The output of a diff.
    pub fn diff(&self, base: &String, tree: &String, file: &Option<String>, context: usize) -> (r: Result<String, Fault>)
        ensures
            r matches Ok(t) ==> self.diffed(base@, tree@, opt_view(*file), context) == Some(t@),
            r matches Err(f) ==> self.diffed(base@, tree@, opt_view(*file), context) is None
                && (f matches Fault::Need(Need::Diff(x, y, z, n)) && x@ == base@ && y@ == tree@ && opt_view(z) == opt_view(*file) && n == context),
    {
        let ghost table = self.diff_table();
        let ghost key = (base@, tree@, opt_view(*file), context);
        assert(table.skip(0) =~= table);
        let mut i: usize = 0;
        while i < self.diffs.len()
            invariant
                i <= self.diffs@.len(),
                table == self.diff_table(),
                key == (base@, tree@, opt_view(*file), context),
                table.len() == self.diffs@.len(),
                lookup(table, key) == lookup(table.skip(i as int), key),
            decreases self.diffs@.len() - i,
        {
            let d = &self.diffs[i];
            assert(table[i as int] == ((d.base@, d.tree@, opt_view(d.file), d.context), d.text@));
            let same_file = match (&d.file, file) {
                (Some(x), Some(y)) => *x == *y,
                (None, None) => true,
                _ => false,
            };
            if d.base == *base && d.tree == *tree && d.context == context && same_file {
                proof {
                    lemma_lookup_found(table, i as int, key);
                }
                return Ok(d.text.clone());
            }
            proof {
                lemma_lookup_step(table, i as int, key);
            }
            i = i + 1;
        }
        assert(table.skip(i as int).len() == 0);
        Err(Fault::Need(Need::Diff(base.clone(), tree.clone(), file.clone(), context)))
    }

    /// Continues past write number `k`, which must be `e`: done already, or to be done now.
    pub fn perform(&self, k: usize, e: Effect) -> (r: Result<(), Fault>)
        ensures
            r is Ok <==> self.performed(k as int, e@),
            r matches Err(f) ==> (k == self.done@.len() && (f matches Fault::Need(Need::Perform(j, x)) && j == k && x@ == e@))
                || (k != self.done@.len() && f matches Fault::Refused(Refusal::WorldMismatch)),
    {
        if k < self.done.len() {
            if self.done[k].same(&e) {
                Ok(())
            } else {
                Err(Fault::Refused(Refusal::WorldMismatch))
            }
        } else if k == self.done.len() {
            Err(Fault::Need(Need::Perform(k, e)))
        } else {
            Err(Fault::Refused(Refusal::WorldMismatch))
        }
    }
}

} // verus!
