//! What the controller reads of the world: stored trees, the real and shadow files, the
//! human's recorded choices, and the reviewable changes of a proposal.
use vstd::prelude::*;
use crate::controller::{Controller, HumanEdit};
use crate::protocol::Proposal;
use crate::snapshot::{Snapshot, File, FileView};
use crate::workspace::{merge, merged, merge_missing, merge_conflicts, resolution, final_file, law_merge_without_change_keeps_current, law_merge_fast_forward, law_merge_one_sided};
use crate::world::{World, Place, Files, is_tree_id, Need};
use crate::error::{Fault, Refusal};
use crate::hunks::{Hunk, HunkView, hunks, hunks_from, undo, undo_hunk};
use crate::snapshot::{ordered, lemma_ordered, has_nul};
use crate::workspace::file_at;

verus! {

broadcast use {vstd::std_specs::btree::group_btree_axioms, vstd::laws_cmp::group_laws_cmp};

/// The answer orders no write.
pub open spec fn reads_only<T>(r: Result<T, Fault>) -> bool {
    !(r matches Err(Fault::Need(Need::Perform(_, _))))
}

/// The files stored under `t`, if `t` is a tree id and the world knows it.
pub open spec fn fetch(w: World, t: Seq<char>) -> Option<Files> {
    if is_tree_id(t) {
        w.loaded(t)
    } else {
        None
    }
}

/// The merge of `c` with the change from `b` to `d`, if it is known and has no conflict.
pub open spec fn merge_of(w: World, b: Files, c: Files, d: Files) -> Option<Files> {
    if !merge_missing(w, b, c, d) && merge_conflicts(w, b, c, d).is_empty() {
        Some(merged(w, b, c, d))
    } else {
        None
    }
}

/// The files of tree `t`.
pub fn load(w: &World, t: &String) -> (r: Result<Snapshot, Fault>)
    ensures
        reads_only(r),
        r matches Ok(s) ==> fetch(*w, t@) == Some(s@),
        r is Err ==> fetch(*w, t@) is None,
{
    w.load(t)
}

/// The three-way merge of `c` with the change from `b` to `d`.
pub fn merge3(w: &World, b: &Snapshot, c: &Snapshot, d: &Snapshot) -> (r: Result<Snapshot, Fault>)
    ensures
        reads_only(r),
        r matches Ok(s) ==> merge_of(*w, b@, c@, d@) == Some(s@),
        r is Err ==> merge_of(*w, b@, c@, d@) is None,
{
    let r = merge(b, c, d, w);
    proof {
        match &r {
            Err(Fault::Need(_)) => {
                let p = choose|p: Seq<char>| #[trigger] resolution(*w, b@, c@, d@, p) is Missing;
                assert(resolution(*w, b@, c@, d@, p) is Missing);
            },
            _ => {},
        }
    }
    r
}

/// `new` is `old` with the draft of proposal `id` set to tree `tree`.
pub open spec fn drafted(old: Map<usize, String>, new: Map<usize, String>, id: usize, tree: Seq<char>) -> bool {
    &&& new.dom() == old.dom().insert(id)
    &&& new[id]@ == tree
    &&& forall|k: usize| k != id && old.dom().contains(k) ==> #[trigger] new[k] == old[k]
}

/// The recorded human edits, as pairs of trees before and after.
pub open spec fn human_views(v: Seq<HumanEdit>) -> Seq<(Seq<char>, Seq<char>)> {
    v.map_values(|e: HumanEdit| (e.before@, e.after@))
}

/// Undoes the recorded human edits, newest first, over `cur`.
pub open spec fn undo_human(w: World, human: Seq<(Seq<char>, Seq<char>)>, cur: Files) -> Option<Files>
    decreases human.len(),
{
    if human.len() == 0 {
        Some(cur)
    } else {
        let e = human.last();
        match (fetch(w, e.1), fetch(w, e.0)) {
            (Some(a), Some(b)) => match merge_of(w, a, cur, b) {
                Some(m) => undo_human(w, human.drop_last(), m),
                None => None,
            },
            _ => None,
        }
    }
}

/// `target`, keeping the human's recorded choices that `cur` holds.
pub open spec fn preserve_of(w: World, human: Seq<(Seq<char>, Seq<char>)>, cur: Files, target: Files) -> Option<Files> {
    match undo_human(w, human, cur) {
        Some(a) => merge_of(w, a, target, cur),
        None => None,
    }
}

/// Undoes recorded human deltas in memory, newest first: the result is their common
/// ancestor with `cur`, only ever a merge base, never written anywhere.
pub fn without_human(w: &World, human: &Vec<HumanEdit>, cur: &Snapshot) -> (r: Result<Snapshot, Fault>)
    ensures
        reads_only(r),
        r matches Ok(s) ==> undo_human(*w, human_views(human@), cur@) == Some(s@),
        r is Err ==> undo_human(*w, human_views(human@), cur@) is None,
{
    let mut ancestor = cur.copy();
    let mut i = human.len();
    assert(human@.take(i as int) =~= human@);
    while i > 0
        invariant
            i <= human@.len(),
            undo_human(*w, human_views(human@), cur@) == undo_human(*w, human_views(human@.take(i as int)), ancestor@),
        decreases i,
    {
        let e = &human[i - 1];
        assert(human_views(human@.take(i as int)).last() == (e.before@, e.after@));
        assert(human_views(human@.take(i as int)).drop_last() =~= human_views(human@.take(i - 1)));
        let after = load(w, &e.after)?;
        let before = load(w, &e.before)?;
        ancestor = merge3(w, &after, &ancestor, &before)?;
        i = i - 1;
    }
    assert(human_views(human@.take(0)) =~= Seq::<(Seq<char>, Seq<char>)>::empty());
    Ok(ancestor)
}

/// The human's choices that `cur` holds, carried over onto `target`.
pub fn preserve_human(w: &World, human: &Vec<HumanEdit>, cur: &Snapshot, target: &Snapshot) -> (r: Result<Snapshot, Fault>)
    ensures
        reads_only(r),
        r matches Ok(s) ==> preserve_of(*w, human_views(human@), cur@, target@) == Some(s@),
        r is Err ==> preserve_of(*w, human_views(human@), cur@, target@) is None,
{
    let ancestor = without_human(w, human, cur)?;
    match merge3(w, &ancestor, target, cur) {
        Ok(s) => Ok(s),
        Err(Fault::Refused(Refusal::Conflict(paths))) => Err(Fault::Refused(Refusal::HumanConflict(paths))),
        Err(f) => Err(f),
    }
}

impl Controller {
    /// The real files, read after `k` writes: every listed path, and every path of the
    /// baseline and applied trees that exists.
    pub open spec fn current_of(&self, w: World, k: usize) -> Option<Files> {
        match (fetch(w, self.session.baseline@), fetch(w, self.session.applied@)) {
            (Some(a), Some(b)) => w.captured(Place::Real, a.union_prefer_right(b), k),
            _ => None,
        }
    }

    /// The selected proposal with its saved preview as its tree: id, base and tree.
    pub open spec fn effective(&self) -> Option<(usize, Seq<char>, Seq<char>)> {
        match self.selected_index() {
            Some(i) => {
                let p = self.session.proposals@[i];
                Some((p.id, p.base@, if self.session.drafts@.dom().contains(p.id) {
                    self.session.drafts@[p.id]@
                } else {
                    p.tree@
                }))
            },
            None => None,
        }
    }

    /// The shadow files of the effective proposal, read after `k` writes.
    pub open spec fn preview_of(&self, w: World, k: usize) -> Option<Files> {
        match self.effective() {
            Some((_, _, t)) => match fetch(w, t) {
                Some(f) => w.captured(Place::Shadow, f, k),
                None => None,
            },
            None => None,
        }
    }

    /// The preview and the tree it is stored under.
    pub open spec fn remember_of(&self, w: World, k: usize) -> Option<(Files, Seq<char>)> {
        match self.preview_of(w, k) {
            Some(f) => match w.stored(f) {
                Some(t) => Some((f, t)),
                None => None,
            },
            None => None,
        }
    }

    /// The real files after `k` writes.
    pub fn current_at(&self, w: &World, k: usize) -> (r: Result<Snapshot, Fault>)
        ensures
        reads_only(r),
            r matches Ok(s) ==> self.current_of(*w, k) == Some(s@),
            r is Err ==> self.current_of(*w, k) is None,
    {
        let mut known = load(w, &self.session.baseline)?;
        let applied = load(w, &self.session.applied)?;
        known.extend(&applied);
        w.capture(Place::Real, &known, k)
    }

    /// The real files: every listed path, and every path of the baseline and applied trees
    /// that exists.
    pub fn current(&self, w: &World) -> (r: Result<Snapshot, Fault>)
        ensures
        reads_only(r),
            r matches Ok(s) ==> self.current_of(*w, 0) == Some(s@),
            r is Err ==> self.current_of(*w, 0) is None,
    {
        self.current_at(w, 0)
    }

    /// The selected proposal, with its saved preview as its tree.
    pub fn effective_proposal(&self) -> (r: Option<Proposal>)
        ensures
            match self.effective() {
                Some(e) => r matches Some(p) && p.id == e.0 && p.base@ == e.1 && p.tree@ == e.2,
                None => r is None,
            },
    {
        match self.proposal() {
            Some(p) => {
                let tree = match self.session.drafts.get(&p.id) {
                    Some(t) => t.clone(),
                    None => p.tree.clone(),
                };
                Some(Proposal { id: p.id, base: p.base.clone(), tree })
            },
            None => None,
        }
    }

    /// The shadow files of the effective proposal, after `k` writes.
    pub fn preview(&self, w: &World, k: usize) -> (r: Result<Snapshot, Fault>)
        ensures
        reads_only(r),
            r matches Ok(s) ==> self.preview_of(*w, k) == Some(s@),
            r is Err ==> self.preview_of(*w, k) is None,
            self.effective() is None ==> r matches Err(Fault::Refused(Refusal::MissingProposal)),
    {
        let p = match self.effective_proposal() {
            Some(p) => p,
            None => {
                return Err(Fault::Refused(Refusal::MissingProposal));
            },
        };
        let known = load(w, &p.tree)?;
        w.capture(Place::Shadow, &known, k)
    }

    /// The preview and its tree, to be kept as the selected proposal's draft.
    pub fn remembered(&self, w: &World, k: usize) -> (r: Result<(Snapshot, String), Fault>)
        ensures
        reads_only(r),
            r matches Ok((s, t)) ==> self.remember_of(*w, k) == Some((s@, t@)),
            r is Err ==> self.remember_of(*w, k) is None,
            self.effective() is None ==> r matches Err(Fault::Refused(Refusal::MissingProposal)),
    {
        let files = self.preview(w, k)?;
        let tree = w.store(&files)?;
        Ok((files, tree))
    }
}

/// One reviewable change: where it is, and what the file becomes if it is reverted.
pub struct ChangeTarget {
    pub file: String,
    pub line: usize,
    pub replacement: Option<File>,
    pub label: String,
}

/// A change target, as values.
pub struct TargetView {
    pub file: Seq<char>,
    pub line: usize,
    pub replacement: Option<FileView>,
    pub label: Seq<char>,
}

pub open spec fn opt_file_view(f: Option<File>) -> Option<FileView> {
    match f {
        Some(f) => Some(f@),
        None => None,
    }
}

impl View for ChangeTarget {
    type V = TargetView;

    open spec fn view(&self) -> TargetView {
        TargetView { file: self.file@, line: self.line, replacement: opt_file_view(self.replacement), label: self.label@ }
    }
}

pub open spec fn target_views(v: Seq<ChangeTarget>) -> Seq<TargetView> {
    v.map_values(|t: ChangeTarget| t@)
}

pub open spec fn prepend_targets(a: Seq<TargetView>, b: Option<Seq<TargetView>>) -> Option<Seq<TargetView>> {
    match b {
        Some(b) => Some(a + b),
        None => None,
    }
}

/// Both versions are text files with the same mode, so the change splits into hunks.
pub open spec fn textual(b: Option<FileView>, r: Option<FileView>) -> bool {
    &&& b is Some
    &&& r is Some
    &&& b.unwrap().1 == r.unwrap().1
    &&& !b.unwrap().0.contains(0u8)
    &&& !r.unwrap().0.contains(0u8)
}

/// One change per hunk of path `p`, from old file `b` to new file `r`.
pub open spec fn hunk_targets(p: Seq<char>, b: FileView, r: FileView, hs: Seq<HunkView>) -> Option<Seq<TargetView>>
    decreases hs.len(),
{
    if hs.len() == 0 {
        Some(seq![])
    } else {
        let h = hs[0];
        match (undo_hunk(b.0, r.0, h), hunk_targets(p, b, r, hs.drop_first())) {
            (Some(x), Some(rest)) => if h.new.0 + 1 > usize::MAX {
                None
            } else {
                Some(seq![TargetView { file: p, line: (h.new.0 + 1) as usize, replacement: Some((x, r.1)), label: h.label }] + rest)
            },
            _ => None,
        }
    }
}

/// The changes at path `p` between trees `bt` (files `bf`) and `tt` (files `tf`): one per
/// hunk of a text change, else one for the whole file.
pub open spec fn path_targets(w: World, bt: Seq<char>, tt: Seq<char>, bf: Files, tf: Files, p: Seq<char>) -> Option<Seq<TargetView>> {
    let b = file_at(bf, p);
    let r = file_at(tf, p);
    if b == r {
        Some(seq![])
    } else if textual(b, r) {
        match w.diffed(bt, tt, Some(p), 0) {
            Some(text) => match hunks_from(text, 0) {
                Some(hs) => hunk_targets(p, b.unwrap(), r.unwrap(), hs),
                None => None,
            },
            None => None,
        }
    } else {
        Some(seq![TargetView { file: p, line: 1, replacement: b, label: "file change"@ }])
    }
}

/// The changes at each of `paths`, in order.
pub open spec fn targets_along(w: World, bt: Seq<char>, tt: Seq<char>, bf: Files, tf: Files, paths: Seq<Seq<char>>) -> Option<Seq<TargetView>>
    decreases paths.len(),
{
    if paths.len() == 0 {
        Some(seq![])
    } else {
        match (path_targets(w, bt, tt, bf, tf, paths[0]), targets_along(w, bt, tt, bf, tf, paths.drop_first())) {
            (Some(a), Some(b)) => Some(a + b),
            _ => None,
        }
    }
}

/// The changes from tree `bt` to tree `tt`, path by path in order.
pub open spec fn targets_of(w: World, bt: Seq<char>, tt: Seq<char>) -> Option<Seq<TargetView>> {
    match (fetch(w, bt), fetch(w, tt)) {
        (Some(bf), Some(tf)) => targets_along(w, bt, tt, bf, tf, ordered(bf.dom().union(tf.dom()))),
        _ => None,
    }
}

fn hunk_changes(path: &String, b: &File, r: &File, hs: &Vec<Hunk>) -> (x: Result<Vec<ChangeTarget>, Fault>)
    ensures
        reads_only(x),
        x matches Ok(v) ==> hunk_targets(path@, b@, r@, hs@.map_values(|h: Hunk| h@)) == Some(target_views(v@)),
        x is Err ==> hunk_targets(path@, b@, r@, hs@.map_values(|h: Hunk| h@)) is None,
{
    let ghost all = hs@.map_values(|h: Hunk| h@);
    let mut out: Vec<ChangeTarget> = Vec::new();
    let mut j: usize = 0;
    assert(all.skip(0) =~= all);
    while j < hs.len()
        invariant
            j <= hs@.len(),
            all == hs@.map_values(|h: Hunk| h@),
            hunk_targets(path@, b@, r@, all) == prepend_targets(target_views(out@), hunk_targets(path@, b@, r@, all.skip(j as int))),
        decreases hs.len() - j,
    {
        let h = &hs[j];
        assert(all.skip(j as int)[0] == h@);
        assert(all.skip(j as int).drop_first() =~= all.skip(j + 1));
        let bytes = match undo(&b.bytes, &r.bytes, h) {
            Ok(v) => v,
            Err(e) => {
                return Err(Fault::Refused(e));
            },
        };
        if h.new.0 == usize::MAX {
            return Err(Fault::Refused(Refusal::InvalidHunk));
        }
        let t = ChangeTarget {
            file: path.clone(),
            line: h.new.0 + 1,
            replacement: Some(File { bytes, executable: r.executable }),
            label: h.label.clone(),
        };
        let ghost before = target_views(out@);
        out.push(t);
        assert(target_views(out@) =~= before.push(t@));
        proof {
            match hunk_targets(path@, b@, r@, all.skip(j + 1)) {
                Some(rest) => {
                    assert(before + (seq![t@] + rest) =~= target_views(out@) + rest);
                },
                None => {},
            }
        }
        j = j + 1;
    }
    assert(all.skip(j as int).len() == 0);
    assert(target_views(out@) + Seq::<TargetView>::empty() =~= target_views(out@));
    Ok(out)
}

fn opt_file_of(f: Option<&File>) -> (r: Option<File>)
    ensures
        opt_file_view(r) == match f {
            Some(x) => Some(x@),
            None => None::<FileView>,
        },
{
    match f {
        Some(x) => Some(x.copy()),
        None => None,
    }
}

/// One target per text hunk, or one target for a creation, deletion, binary or mode
/// change, path by path.
pub fn change_targets(w: &World, p: &Proposal) -> (r: Result<Vec<ChangeTarget>, Fault>)
    ensures
        reads_only(r),
        r matches Ok(v) ==> targets_of(*w, p.base@, p.tree@) == Some(target_views(v@)),
        r is Err ==> targets_of(*w, p.base@, p.tree@) is None,
{
    let base = load(w, &p.base)?;
    let result = load(w, &p.tree)?;
    let mut all = base.copy();
    all.extend(&result);
    let n = all.count();
    let ghost paths = all.keys();
    proof {
        assert forall|k: Seq<char>| paths.to_set().contains(k) <==> base@.dom().union(result@.dom()).contains(k) by {
            assert(all@.dom().contains(k) <==> paths.contains(k));
        }
        assert(paths.to_set() =~= base@.dom().union(result@.dom()));
        lemma_ordered(paths, base@.dom().union(result@.dom()));
        assert(paths.skip(0) =~= paths);
    }
    let ghost bt = p.base@;
    let ghost tt = p.tree@;
    let mut out: Vec<ChangeTarget> = Vec::new();
    let mut i: usize = 0;
    while i < n
        invariant
            i <= n,
            n == paths.len(),
            paths == all.keys(),
            bt == p.base@,
            tt == p.tree@,
            targets_of(*w, bt, tt) == prepend_targets(target_views(out@), targets_along(*w, bt, tt, base@, result@, paths.skip(i as int))),
        decreases n - i,
    {
        let path = all.path_at(i);
        assert(paths.skip(i as int)[0] == path@);
        assert(paths.skip(i as int).drop_first() =~= paths.skip(i + 1));
        let b = base.get(path.as_str());
        let r = result.get(path.as_str());
        let ghost before = target_views(out@);
        let same = match (b, r) {
            (Some(x), Some(y)) => x.same(y),
            (None, None) => true,
            _ => false,
        };
        if !same {
            let mut text_pair = false;
            match (b, r) {
                (Some(x), Some(y)) => {
                    if x.executable == y.executable && !has_nul(&x.bytes) && !has_nul(&y.bytes) {
                        text_pair = true;
                        let text = match w.diff(&p.base, &p.tree, &Some(path.clone()), 0) {
                            Ok(t) => t,
                            Err(f) => {
                                return Err(f);
                            },
                        };
                        let hs = match hunks(text.as_str()) {
                            Ok(hs) => hs,
                            Err(e) => {
                                return Err(Fault::Refused(e));
                            },
                        };
                        let mut more = hunk_changes(path, x, y, &hs)?;
                        let ghost added = target_views(more@);
                        out.append(&mut more);
                        assert(target_views(out@) =~= before + added);
                    }
                },
                _ => {},
            }
            if !text_pair {
                let t = ChangeTarget {
                    file: path.clone(),
                    line: 1,
                    replacement: opt_file_of(b),
                    label: String::from_str("file change"),
                };
                out.push(t);
                assert(target_views(out@) =~= before + seq![t@]);
            }
        }
        proof {
            match targets_along(*w, bt, tt, base@, result@, paths.skip(i + 1)) {
                Some(rest) => {
                    let mid = target_views(out@).skip(before.len() as int);
                    assert(target_views(out@) =~= before + mid);
                    assert(before + (mid + rest) =~= target_views(out@) + rest);
                },
                None => {},
            }
        }
        i = i + 1;
    }
    assert(paths.skip(i as int).len() == 0);
    assert(target_views(out@) + Seq::<TargetView>::empty() =~= target_views(out@));
    Ok(out)
}

/// With no recorded human edits, keeping the human's choices changes nothing: the target
/// stands as it is.
pub proof fn law_preserve_without_human(w: World, cur: Files, target: Files)
    ensures
        preserve_of(w, Seq::empty(), cur, target) == Some(target),
{
    law_merge_without_change_keeps_current(w, cur, target);
}

/// A human's choice survives a later proposal: with one recorded edit from the applied
/// files `a` (tree `before`) to the human's files `h` (tree `after`), which the real files
/// still are, every path the proposal `t` leaves as applied keeps the human's file, and
/// every path the human left as applied takes the proposal's file.
pub proof fn law_preserve_keeps_human_choice(w: World, before: Seq<char>, after: Seq<char>, a: Files, h: Files, t: Files, p: Seq<char>)
    requires
        fetch(w, before) == Some(a),
        fetch(w, after) == Some(h),
        preserve_of(w, seq![(before, after)], h, t) is Some,
    ensures
        file_at(t, p) == file_at(a, p) ==> file_at(preserve_of(w, seq![(before, after)], h, t).unwrap(), p) == file_at(h, p),
        file_at(h, p) == file_at(a, p) ==> file_at(preserve_of(w, seq![(before, after)], h, t).unwrap(), p) == file_at(t, p),
{
    let hs = seq![(before, after)];
    law_merge_fast_forward(w, h, a);
    assert(hs.drop_last() =~= Seq::<(Seq<char>, Seq<char>)>::empty());
    assert(undo_human(w, hs.drop_last(), a) == Some(a));
    assert(hs.last() == (before, after));
    assert(merge_of(w, h, h, a) == Some(a));
    assert(undo_human(w, hs, h) == Some(a));
    let r = merged(w, a, t, h);
    assert(file_at(r, p) == final_file(w, a, t, h, p));
    if file_at(t, p) == file_at(a, p) || file_at(h, p) == file_at(a, p) {
        law_merge_one_sided(w, a, t, h, p);
    }
}

} // verus!
