//! The controller's operations that read the world: the view, the diff, the reviewable
//! changes, and repository and conversational tours.
use vstd::prelude::*;
use vstd::view::View as Viewed;
use crate::controller::{Controller, tour_check, tour_result, validate_tour, location_view, TourCheck};
use crate::protocol::{Stage, TourDraft, TourSource, Tour, Change, View, Location, Comparison, MAX_FRAME};
use crate::paths::{path_eq, path_rest, utf8, same_path, strip_path, utf8_text};
use crate::hunks::{HunkView, hunk_holding, hunk_holding_line};
use crate::workspace::{is_valid_path, valid_path};
use crate::snapshot::Snapshot;
use crate::steps::{TargetView, change_targets, targets_of, fetch, reads_only};
use crate::workspace::{Workspace, join_path, joined};
use crate::world::{World, Place, Files};
use crate::error::{Fault, Refusal};

verus! {

/// Whether a check result and an operation's answer agree.
pub open spec fn tour_fault(c: TourCheck, r: Result<(), Fault>) -> bool {
    match r {
        Ok(()) => c is Valid,
        Err(Fault::Refused(e)) => tour_result(c, Err(e)),
        Err(Fault::Need(_)) => false,
    }
}

/// `v` lists the changes `ts`, numbered from zero.
pub open spec fn listed(v: Seq<Change>, ts: Seq<TargetView>) -> bool {
    &&& v.len() == ts.len()
    &&& forall|i: int| 0 <= i < v.len() ==> {
        &&& (#[trigger] v[i]).id == i
        &&& v[i].file@ == ts[i].file
        &&& v[i].line == ts[i].line
        &&& v[i].label@ == ts[i].label
    }
}

/// Where the editor should show change `i`: its file in the real tree, at its line.
pub open spec fn change_location(ws: Workspace, ts: Seq<TargetView>, i: usize) -> Option<(Seq<char>, usize)> {
    if i < ts.len() {
        Some((joined(ws.real@, ts[i as int].file), ts[i as int].line))
    } else {
        None
    }
}

impl Controller {
    /// The changes of the effective proposal; none without a proposal.
    pub open spec fn changes_of(&self, w: World) -> Option<Seq<TargetView>> {
        match self.effective() {
            Some((_, b, t)) => targets_of(w, b, t),
            None => Some(seq![]),
        }
    }

    /// The reviewable changes of the selected proposal, numbered in order: one per text
    /// hunk, or one per created, deleted, binary or mode-changed file.
    pub fn changes(&self, w: &World) -> (r: Result<Vec<Change>, Fault>)
        ensures
            reads_only(r),
            r matches Ok(v) ==> self.changes_of(*w) matches Some(ts) && listed(v@, ts),
            r is Err ==> self.changes_of(*w) is None,
    {
        let p = match self.effective_proposal() {
            Some(p) => p,
            None => {
                return Ok(Vec::new());
            },
        };
        let targets = change_targets(w, &p)?;
        let ghost ts = targets@.map_values(|t: crate::steps::ChangeTarget| t@);
        let mut out: Vec<Change> = Vec::new();
        let mut i: usize = 0;
        while i < targets.len()
            invariant
                i <= targets@.len(),
                ts == targets@.map_values(|t: crate::steps::ChangeTarget| t@),
                out@.len() == i,
                forall|j: int| 0 <= j < i ==> {
                    &&& (#[trigger] out@[j]).id == j
                    &&& out@[j].file@ == ts[j].file
                    &&& out@[j].line == ts[j].line
                    &&& out@[j].label@ == ts[j].label
                },
            decreases targets.len() - i,
        {
            let t = &targets[i];
            out.push(Change { id: i, file: t.file.clone(), line: t.line, label: t.label.clone() });
            i = i + 1;
        }
        Ok(out)
    }

    /// Where the editor should show change `index` of the selected proposal.
    fn change_navigation(&self, w: &World, index: usize) -> (r: Result<Option<Location>, Fault>)
        ensures
            reads_only(r),
            r matches Ok(l) ==> self.changes_of(*w) matches Some(ts) && location_view(l) == change_location(self.workspace, ts, index),
            r is Err ==> self.changes_of(*w) is None,
    {
        let changes = self.changes(w)?;
        if index < changes.len() {
            let c = &changes[index];
            Ok(Some(Location { file: join_path(&self.workspace.real, &c.file), line: c.line }))
        } else {
            Ok(None)
        }
    }

    /// The view the editor shows of this controller.
    pub fn view(&self, w: &World) -> (r: Result<View, Fault>)
        ensures
            reads_only(r),
            r is Ok <==> self.changes_of(*w) is Some,
            r matches Ok(v) ==> {
                &&& v.stage == self.session.stage
                &&& v.busy == self.busy
                &&& v.real@ == self.workspace.real@
                &&& v.shadow@ == self.workspace.shadow@
                &&& v.proposal == self.session.selected
                &&& v.proposals@ == self.session.proposals@.map_values(|p: crate::protocol::Proposal| p.id)
                &&& match self.active() {
                    Some(t) => v.tour matches Some(x) && x@ == t,
                    None => v.tour is None,
                }
                &&& listed(v.changes@, self.changes_of(*w).unwrap())
                &&& v.change_index == self.session.change_index
                &&& v.editor.same_as(&self.editor)
                &&& location_view(v.navigation) == location_view(self.navigation)
                &&& v.generation == self.generation
            },
    {
        let changes = self.changes(w)?;
        let mut proposals: Vec<usize> = Vec::new();
        let mut i: usize = 0;
        while i < self.session.proposals.len()
            invariant
                i <= self.session.proposals@.len(),
                proposals@ == self.session.proposals@.take(i as int).map_values(|p: crate::protocol::Proposal| p.id),
            decreases self.session.proposals.len() - i,
        {
            proposals.push(self.session.proposals[i].id);
            assert(self.session.proposals@.take(i + 1).map_values(|p: crate::protocol::Proposal| p.id)
                =~= self.session.proposals@.take(i as int).map_values(|p: crate::protocol::Proposal| p.id).push(self.session.proposals@[i as int].id));
            i = i + 1;
        }
        assert(self.session.proposals@.take(i as int) =~= self.session.proposals@);
        let tour = match self.tour() {
            Some(t) => Some(t.copy()),
            None => None,
        };
        let navigation = match &self.navigation {
            Some(l) => Some(l.copy()),
            None => None,
        };
        Ok(View {
            stage: self.session.stage,
            busy: self.busy,
            real: self.workspace.real.clone(),
            shadow: self.workspace.shadow.clone(),
            proposal: self.session.selected,
            proposals,
            tour,
            changes,
            change_index: self.session.change_index,
            editor: self.editor.copy(),
            navigation,
            generation: self.generation,
        })
    }

    /// The tree that `diff` shows: the saved preview while a proposal is pending and the
    /// agent is idle, else the proposal's tree.
    pub open spec fn diff_tree(&self, w: World) -> Option<Seq<char>> {
        match self.effective() {
            Some((_, _, t)) => if self.session.pending_proposal && !self.busy {
                match self.preview_of(w, 0) {
                    Some(f) => w.stored(f),
                    None => None,
                }
            } else {
                Some(t)
            },
            None => None,
        }
    }

    /// While a proposal is pending and the agent is idle, `/diff` compares the proposal's
    /// base with the stored tree of the saved preview files: every saved preview edit is
    /// in it. Otherwise it compares the base with the proposal's own tree.
    pub proof fn law_diff_shows_saved_preview(&self, w: World, f: Files, t: Seq<char>)
        requires
            self.effective() is Some,
        ensures
            self.session.pending_proposal && !self.busy && self.preview_of(w, 0) == Some(f) && w.stored(f) == Some(t)
                ==> self.diff_tree(w) == Some(t),
            self.session.pending_proposal && !self.busy && self.preview_of(w, 0) is None ==> self.diff_tree(w) is None,
            !(self.session.pending_proposal && !self.busy) ==> self.diff_tree(w) == Some(self.effective().unwrap().2),
    {
    }

    /// The unified diff, with three lines of context, of the selected proposal.
    pub fn diff(&self, w: &World) -> (r: Result<String, Fault>)
        ensures
            reads_only(r),
            self.effective() is None ==> r matches Err(Fault::Refused(Refusal::NoProposal)),
            r is Ok <==> (self.diff_tree(*w) matches Some(t) && w.diffed(self.effective().unwrap().1, t, None, 3) is Some),
            r matches Ok(d) ==> d@ == w.diffed(self.effective().unwrap().1, self.diff_tree(*w).unwrap(), None, 3).unwrap(),
    {
        let p = match self.effective_proposal() {
            Some(p) => p,
            None => {
                return Err(Fault::Refused(Refusal::NoProposal));
            },
        };
        let tree = if self.session.pending_proposal && !self.busy {
            let files = self.preview(w, 0)?;
            w.store(&files)?
        } else {
            p.tree
        };
        w.diff(&p.base, &tree, &None, 3)
    }

    /// A repository tour, during discussion: checked against the real files, then shown
    /// from its overview.
    pub fn repository_tour(&mut self, w: &World, content: TourDraft) -> (r: Result<(), Fault>)
        requires
            old(self).wf(),
            old(self).generation < u64::MAX,
            old(self).session.tours@.len() < usize::MAX,
        ensures
            reads_only(r),
            final(self).wf(),
            old(self).session.stage != Stage::Discuss ==> r matches Err(Fault::Refused(Refusal::RepositoryTourOutsideDiscuss)),
            old(self).session.stage == Stage::Discuss ==> match old(self).current_of(*w, 0) {
                Some(f) => tour_fault(tour_check(content@, f), r),
                None => r is Err,
            },
            r is Err ==> *final(self) == *old(self),
            r is Ok ==> final(self).shows_new_tour(*old(self), TourSource::Repository, content),
            final(self).busy == old(self).busy,
            final(self).turn == old(self).turn,
    {
        if self.session.stage != Stage::Discuss {
            return Err(Fault::Refused(Refusal::RepositoryTourOutsideDiscuss));
        }
        let files = self.current(w)?;
        match validate_tour(&content, &files) {
            Ok(()) => {},
            Err(e) => {
                return Err(Fault::Refused(e));
            },
        }
        self.show_new_tour(TourSource::Repository, content);
        Ok(())
    }

    /// `self` is `old` with a new active tour from `source`, shown from its overview.
    pub open spec fn shows_new_tour(&self, old: Controller, source: TourSource, content: TourDraft) -> bool {
        &&& self.session.tours@ == old.session.tours@.push(Tour { id: (old.session.tours@.len() + 1) as usize, source, current_stop: 0, content })
        &&& self.session.active_tour == Some(old.session.tours@.len() as usize)
        &&& self.navigation is None
        &&& self.generation == old.generation + 1
        &&& self.workspace == old.workspace
        &&& self.editor == old.editor
        &&& self.editor_connected == old.editor_connected
        &&& self.session.stage == old.session.stage
        &&& self.session.proposals == old.session.proposals
        &&& self.session.selected == old.session.selected
        &&& self.session.baseline == old.session.baseline
        &&& self.session.applied == old.session.applied
        &&& self.session.pending_base == old.session.pending_base
        &&& self.session.pending_proposal == old.session.pending_proposal
        &&& self.session.drafts == old.session.drafts
        &&& self.session.change_index == old.session.change_index
        &&& self.session.human == old.session.human
    }

    fn show_new_tour(&mut self, source: TourSource, content: TourDraft)
        requires
            old(self).wf(),
            old(self).generation < u64::MAX,
            old(self).session.tours@.len() < usize::MAX,
        ensures
            final(self).wf(),
            final(self).shows_new_tour(*old(self), source, content),
            final(self).busy == old(self).busy,
            final(self).turn == old(self).turn,
    {
        self.add_tour(source, content);
        self.navigate_tour();
    }

    /// `self` and `r` are what presenting tour `content` during a conversation gives from
    /// `old`, busy and turn aside.
    pub open spec fn presents(&self, old: Controller, w: World, content: TourDraft, r: Result<(), Fault>) -> bool {
        &&& old.session.stage != Stage::Tour ==> {
            &&& (old.session.stage != Stage::Discuss ==> r matches Err(Fault::Refused(Refusal::RepositoryTourOutsideDiscuss)))
            &&& (old.session.stage == Stage::Discuss ==> match old.current_of(w, 0) {
                Some(f) => tour_fault(tour_check(content@, f), r),
                None => r is Err,
            })
            &&& (r is Ok ==> self.shows_new_tour(old, TourSource::Repository, content))
        }
        &&& old.session.stage == Stage::Tour ==> match old.active() {
            None => r matches Err(Fault::Refused(Refusal::NoActiveTour)),
            Some(t) => {
                &&& match w.captured(Place::Shadow, Map::empty(), 0) {
                    Some(f) => tour_fault(tour_check(content@, f), r),
                    None => r is Err,
                }
                &&& (r is Ok ==> self.shows_new_tour(old, t.source, content))
            },
        }
    }

    /// A tour presented during a conversation: while a proposal is on tour, a new tour of
    /// the same source checked against the shadow files; otherwise a repository tour.
    pub fn present_tour(&mut self, w: &World, content: TourDraft) -> (r: Result<(), Fault>)
        requires
            old(self).wf(),
            old(self).generation < u64::MAX,
            old(self).session.tours@.len() < usize::MAX,
        ensures
            final(self).wf(),
            reads_only(r),
            final(self).presents(*old(self), *w, content, r),
            final(self).busy == old(self).busy,
            final(self).turn == old(self).turn,
            r is Err ==> *final(self) == *old(self),
    {
        if self.session.stage != Stage::Tour {
            return self.repository_tour(w, content);
        }
        let source = match self.tour() {
            Some(t) => t.source,
            None => {
                return Err(Fault::Refused(Refusal::NoActiveTour));
            },
        };
        let files = w.capture(Place::Shadow, &Snapshot::new(), 0)?;
        match validate_tour(&content, &files) {
            Ok(()) => {},
            Err(e) => {
                return Err(Fault::Refused(e));
            },
        }
        self.show_new_tour(source, content);
        Ok(())
    }
}

/// The text at `file` in `files`: none where there is no file; refused (outer none) where
/// the file is binary or not UTF-8.
pub open spec fn text_of(files: Files, file: Seq<char>) -> Option<Option<Seq<char>>> {
    if !files.dom().contains(file) {
        Some(None)
    } else if files[file].0.contains(0u8) {
        None
    } else {
        match utf8(files[file].0) {
            Some(t) => Some(Some(t)),
            None => None,
        }
    }
}

/// The size in bytes of the file at `file`, or zero.
pub open spec fn size_of(files: Files, file: Seq<char>) -> int {
    if files.dom().contains(file) { files[file].0.len() as int } else { 0 }
}

/// Some dirty buffer is the same path as `p`.
pub open spec fn dirty_at(dirty: Seq<String>, p: Seq<char>) -> bool {
    exists|i: int| 0 <= i < dirty.len() && path_eq(#[trigger] dirty[i]@, p)
}

pub open spec fn opt_text(o: Option<String>) -> Option<Seq<char>> {
    match o {
        Some(s) => Some(s@),
        None => None,
    }
}

impl Controller {
    /// The root of the files a comparison reads: the shadow tree while a proposal is
    /// pending, else the real tree.
    pub open spec fn peek_root(&self) -> Seq<char> {
        if self.session.pending_proposal { self.workspace.shadow@ } else { self.workspace.real@ }
    }

    /// The files a comparison reads.
    pub open spec fn peek_files(&self, w: World) -> Option<Files> {
        if self.session.pending_proposal { self.preview_of(w, 0) } else { self.current_of(w, 0) }
    }

    /// The selected file's path in the repository, where it can be compared: the editor is
    /// idle on a saved file of this repository with a safe path.
    pub open spec fn peek_path(&self) -> Option<Seq<char>> {
        match self.editor.file {
            Some(f) => if self.busy || self.effective() is None || dirty_at(self.editor.dirty@, f@) {
                None
            } else {
                let rest = match path_rest(f@, self.workspace.shadow@) {
                    Some(x) => Some(x),
                    None => path_rest(f@, self.workspace.real@),
                };
                match rest {
                    Some(rel) => if is_valid_path(rel) && !dirty_at(self.editor.dirty@, joined(self.peek_root(), rel)) {
                        Some(rel)
                    } else {
                        None
                    },
                    None => None,
                }
            },
            None => None,
        }
    }

    /// What a comparison of file `rel` finds: its old and current texts and the hunk
    /// under the cursor, if the world knows it all and the file can be compared.
    pub open spec fn peek_plan(&self, w: World, rel: Seq<char>) -> Option<(Option<Seq<char>>, Option<Seq<char>>, HunkView)> {
        match (self.effective(), self.peek_files(w)) {
            (Some(e), Some(files)) => match fetch(w, e.1) {
                Some(base) => match (text_of(base, rel), text_of(files, rel)) {
                    (Some(old), Some(cur)) => if size_of(base, rel) + size_of(files, rel) >= MAX_FRAME / 8 {
                        None
                    } else {
                        match w.stored(files) {
                            Some(t) => match w.diffed(e.1, t, Some(rel), 3) {
                                Some(d) => match hunk_holding(d, 0, if self.editor.line == 0 { 0 } else { self.editor.line - 1 }) {
                                    Ok(Some(h)) => if h.old.0 + 1 > usize::MAX { None } else { Some((old, cur, h)) },
                                    _ => None,
                                },
                                None => None,
                            },
                            None => None,
                        }
                    },
                    _ => None,
                },
                None => None,
            },
            _ => None,
        }
    }

    fn dirty_has(&self, p: &str) -> (r: bool)
        ensures
            r == dirty_at(self.editor.dirty@, p@),
    {
        let mut i: usize = 0;
        while i < self.editor.dirty.len()
            invariant
                i <= self.editor.dirty@.len(),
                forall|j: int| 0 <= j < i ==> !path_eq(#[trigger] self.editor.dirty@[j]@, p@),
            decreases self.editor.dirty.len() - i,
        {
            if same_path(self.editor.dirty[i].as_str(), p) {
                return true;
            }
            i = i + 1;
        }
        false
    }

    /// Both saved versions of the selected file, positioned at the changed block under the
    /// cursor.
    pub fn peek(&self, w: &World) -> (r: Result<Comparison, Fault>)
        ensures
            reads_only(r),
            self.busy ==> r matches Err(Fault::Refused(Refusal::CompareWhileBusy)),
            !self.busy && self.effective() is None ==> r matches Err(Fault::Refused(Refusal::NoProposalToCompare)),
            !self.busy && self.effective() is Some && self.editor.file is None ==> r matches Err(Fault::Refused(Refusal::NoFileSelected)),
            r is Ok <==> (self.peek_path() matches Some(rel) && self.peek_plan(*w, rel) is Some),
            r matches Ok(c) ==> {
                let rel = self.peek_path().unwrap();
                let (old, cur, h) = self.peek_plan(*w, rel).unwrap();
                &&& c.file@ == rel
                &&& c.current_file@ == joined(self.peek_root(), rel)
                &&& opt_text(c.old) == old
                &&& opt_text(c.current) == cur
                &&& c.old_line == h.old.0 + 1
                &&& c.current_line == h.new.0 + 1
            },
    {
        if self.busy {
            return Err(Fault::Refused(Refusal::CompareWhileBusy));
        }
        let p = match self.effective_proposal() {
            Some(p) => p,
            None => {
                return Err(Fault::Refused(Refusal::NoProposalToCompare));
            },
        };
        let path = match &self.editor.file {
            Some(f) => f.clone(),
            None => {
                return Err(Fault::Refused(Refusal::NoFileSelected));
            },
        };
        if self.dirty_has(path.as_str()) {
            return Err(Fault::Refused(Refusal::SaveBufferFirst));
        }
        let file = match strip_path(path.as_str(), self.workspace.shadow.as_str()) {
            Some(x) => x,
            None => match strip_path(path.as_str(), self.workspace.real.as_str()) {
                Some(x) => x,
                None => {
                    return Err(Fault::Refused(Refusal::OutsideRepository));
                },
            },
        };
        if !valid_path(file.as_str()) {
            return Err(Fault::Refused(Refusal::UnsafePath(file)));
        }
        let root = if self.session.pending_proposal { &self.workspace.shadow } else { &self.workspace.real };
        let current_file = join_path(root, &file);
        if self.dirty_has(current_file.as_str()) {
            return Err(Fault::Refused(Refusal::SaveBufferFirst));
        }
        assert(self.peek_path() == Some(file@));
        let files = if self.session.pending_proposal { self.preview(w, 0)? } else { self.current_at(w, 0)? };
        let baseline = crate::steps::load(w, &p.base)?;
        let (old, old_size) = text_at(&baseline, &file)?;
        let (current, current_size) = text_at(&files, &file)?;
        if old_size >= MAX_FRAME / 8 || current_size >= MAX_FRAME / 8 - old_size {
            return Err(Fault::Refused(Refusal::TooLargeToCompare));
        }
        let tree = w.store(&files)?;
        let diff = w.diff(&p.base, &tree, &Some(file.clone()), 3)?;
        let line = if self.editor.line == 0 { 0 } else { self.editor.line - 1 };
        match hunk_holding_line(diff.as_str(), line) {
            Err(e) => Err(Fault::Refused(e)),
            Ok(None) => Err(Fault::Refused(Refusal::NoChangeHere)),
            Ok(Some(h)) => {
                if h.old.0 == usize::MAX {
                    return Err(Fault::Refused(Refusal::InvalidHunk));
                }
                Ok(Comparison {
                    file,
                    current_file,
                    old,
                    current,
                    old_line: h.old.0 + 1,
                    current_line: h.new.0 + 1,
                })
            },
        }
    }
}

/// The text at `file` in `files` and its size in bytes: none and zero where there is no
/// file; refused where the file is binary or not UTF-8.
fn text_at(files: &Snapshot, file: &String) -> (r: Result<(Option<String>, usize), Fault>)
    ensures
        reads_only(r),
        r matches Ok((t, n)) ==> text_of(files@, file@) == Some(opt_text(t)) && n == size_of(files@, file@),
        r is Err ==> text_of(files@, file@) is None,
{
    match files.get(file.as_str()) {
        None => Ok((None, 0)),
        Some(f) => {
            if crate::snapshot::has_nul(&f.bytes) {
                return Err(Fault::Refused(Refusal::BinaryComparison));
            }
            match utf8_text(&f.bytes) {
                Some(t) => Ok((Some(t), f.bytes.len())),
                None => Err(Fault::Refused(Refusal::NotUtf8)),
            }
        },
    }
}

} // verus!
