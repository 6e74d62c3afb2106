//! The controller's transitions that order writes: application and revert of changes in
//! the real files, and the moves between discussion, building and touring, which write
//! only the shadow files.
use vstd::prelude::*;
use vstd::view::View as Viewed;
use crate::controller::{Controller, HumanEdit, ProposalTurn, moved, location_view, tour_at, at_stop};
use crate::protocol::{Stage, TourDraft, TourSource, Tour, Proposal, Location};

use crate::steps::{TargetView, change_targets, targets_of, fetch, merge_of, load, merge3, preserve_of, preserve_human, human_views, drafted, reads_only, undo_human, without_human};
use crate::operations::change_location;
use crate::workspace::{join_path, law_merge_without_change_keeps_current, law_merge_fast_forward};
use crate::world::{World, Place, Files, Effect, EffectView, Need};
use crate::error::{Fault, Refusal};

verus! {

broadcast use {vstd::std_specs::btree::group_btree_axioms, vstd::laws_cmp::group_laws_cmp};

/// The files of `tree` with path `t.file` set to what reverting change `t` gives.
pub open spec fn reverted(tree: Files, t: TargetView) -> Files {
    match t.replacement {
        Some(f) => tree.insert(t.file, f),
        None => tree.remove(t.file),
    }
}

/// The human edits of `h`, if given, as pairs of trees.
pub open spec fn opt_human_views(h: Option<Vec<HumanEdit>>) -> Option<Seq<(Seq<char>, Seq<char>)>> {
    match h {
        Some(v) => Some(human_views(v@)),
        None => None,
    }
}

/// A proposal's draft tree, if given, as values.
pub open spec fn opt_draft(d: Option<(usize, String)>) -> Option<(usize, Seq<char>)> {
    match d {
        Some((id, t)) => Some((id, t@)),
        None => None,
    }
}

impl Controller {
    /// `self` is `old` with only what an operation had observed before it was refused:
    /// the human edits recorded from the real files, where `human` gives them, and the
    /// saved preview kept as the draft of its proposal, where `draft` gives it.
    pub open spec fn kept(&self, old: Controller, human: Option<Seq<(Seq<char>, Seq<char>)>>, draft: Option<(usize, Seq<char>)>) -> bool {
        &&& match human {
            Some(h) => human_views(self.session.human@) == h,
            None => self.session.human == old.session.human,
        }
        &&& match draft {
            Some((id, dt)) => drafted(old.session.drafts@, self.session.drafts@, id, dt),
            None => self.session.drafts == old.session.drafts,
        }
        &&& self.session.stage == old.session.stage
        &&& self.session.proposals == old.session.proposals
        &&& self.session.selected == old.session.selected
        &&& self.session.baseline == old.session.baseline
        &&& self.session.applied == old.session.applied
        &&& self.session.pending_base == old.session.pending_base
        &&& self.session.pending_proposal == old.session.pending_proposal
        &&& self.session.tours == old.session.tours
        &&& self.session.active_tour == old.session.active_tour
        &&& self.session.change_index == old.session.change_index
        &&& self.navigation == old.navigation
        &&& self.workspace == old.workspace
        &&& self.editor == old.editor
        &&& self.editor_connected == old.editor_connected
        &&& self.busy == old.busy
        &&& self.turn == old.turn
        &&& self.generation == old.generation
    }

    /// Gives up with `f`; a refusal keeps what was observed before it, as the operation
    /// would have kept it: `human` as the human edits, and `draft` as a proposal's draft.
    fn keep(&mut self, f: Fault, human: Option<Vec<HumanEdit>>, draft: Option<(usize, String)>) -> (r: Result<(), Fault>)
        requires
            old(self).wf(),
        ensures
            final(self).wf(),
            r == Err::<(), Fault>(f),
            f is Refused ==> final(self).kept(*old(self), opt_human_views(human), opt_draft(draft)),
            !(f is Refused) ==> *final(self) == *old(self),
    {
        if let Fault::Refused(_) = &f {
            match human {
                Some(h) => {
                    self.session.human = h;
                },
                None => {},
            }
            match draft {
                Some((id, dt)) => {
                    self.session.drafts.insert(id, dt);
                },
                None => {},
            }
        }
        Err(f)
    }
}

impl Controller {
    /// Where the editor shows change `index` of proposal `p`.
    fn navigation_for(&self, w: &World, p: &Proposal, index: usize) -> (r: Result<Option<Location>, Fault>)
        ensures
            reads_only(r),
            r matches Ok(l) ==> targets_of(*w, p.base@, p.tree@) matches Some(ts) && location_view(l) == change_location(self.workspace, ts, index),
            r is Err ==> targets_of(*w, p.base@, p.tree@) is None,
    {
        let targets = change_targets(w, p)?;
        if index < targets.len() {
            let t = &targets[index];
            Ok(Some(Location { file: join_path(&self.workspace.real, &t.file), line: t.line }))
        } else {
            Ok(None)
        }
    }

    /// The write `apply` orders, if it gets that far: the real files, and what they
    /// become, where every merge on the way succeeds.
    pub open spec fn apply_write(&self, w: World) -> Option<(Files, Files)> {
        match (self.session.pending_base, self.remember_of(w, 0), self.current_of(w, 0)) {
            (Some(pb), Some((draft, _)), Some(cur)) => match fetch(w, pb@) {
                Some(base) => match preserve_of(w, human_views(self.session.human@), base, draft) {
                    Some(target) => match merge_of(w, base, cur, target) {
                        Some(desired) => Some((cur, desired)),
                        None => None,
                    },
                    None => None,
                },
                None => None,
            },
            _ => None,
        }
    }

    /// What `apply` reads and orders, if the world knows all of it: the saved preview's
    /// tree, the real files, the files they become, the applied tree and the changes.
    pub open spec fn apply_plan(&self, w: World) -> Option<(Seq<char>, Files, Files, Seq<char>, Seq<TargetView>)> {
        match (self.session.pending_base, self.effective(), self.remember_of(w, 0), self.current_of(w, 0)) {
            (Some(pb), Some(e), Some((draft, dt)), Some(cur)) => match fetch(w, pb@) {
                Some(base) => match preserve_of(w, human_views(self.session.human@), base, draft) {
                    Some(target) => match merge_of(w, base, cur, target) {
                        Some(desired) => match (w.stored(target), targets_of(w, e.1, dt)) {
                            (Some(ap), Some(ts)) => if w.performed(0, EffectView::Replace(cur, desired)) {
                                Some((dt, cur, desired, ap, ts))
                            } else {
                                None
                            },
                            _ => None,
                        },
                        None => None,
                    },
                    None => None,
                },
                None => None,
            },
            _ => None,
        }
    }

    /// What `apply` has observed when it is refused after loading the pending base: the
    /// saved preview, kept as the draft of the selected proposal.
    pub open spec fn apply_seen(&self, w: World) -> Option<(usize, Seq<char>)> {
        if !self.busy && self.session.stage == Stage::Tour && self.editor_saved() {
            match self.session.pending_base {
                Some(pb) => match fetch(w, pb@) {
                    Some(_) => match (self.remember_of(w, 0), self.effective()) {
                        (Some((_, dt)), Some(e)) => Some((e.0, dt)),
                        _ => None,
                    },
                    None => None,
                },
                None => None,
            }
        } else {
            None
        }
    }

    /// Applies the selected proposal, with its saved preview edits, to the real files:
    /// the change from the pending base to the proposal, keeping the human's recorded
    /// choices, merged into the current real files.
    pub fn apply(&mut self, w: &World) -> (r: Result<(), Fault>)
        requires
            old(self).wf(),
            old(self).generation < u64::MAX,
        ensures
            final(self).wf(),
            old(self).busy || old(self).session.stage != Stage::Tour ==> r matches Err(Fault::Refused(Refusal::ApplyNeedsTour)),
            !old(self).busy && old(self).session.stage == Stage::Tour && !old(self).editor_saved() ==> (r matches Err(Fault::Refused(e))
                && (e is EditorDisconnected || e is UnsavedBuffers)),
            !old(self).busy && old(self).session.stage == Stage::Tour && old(self).editor_saved() && old(self).session.pending_base is None
                ==> r matches Err(Fault::Refused(Refusal::MissingApplicationBaseline)),
            r is Ok <==> !old(self).busy && old(self).session.stage == Stage::Tour && old(self).editor_saved() && old(self).apply_plan(*w) is Some,
            r matches Err(Fault::Need(Need::Perform(k, e))) ==> k == 0 && (old(self).apply_write(*w) matches Some((c, d))
                && e@ == EffectView::Replace(c, d)),
            r matches Err(Fault::Need(_)) ==> *final(self) == *old(self),
            r matches Err(Fault::Refused(_)) ==> final(self).kept(*old(self), None, old(self).apply_seen(*w)),
            r is Ok ==> {
                let (dt, cur, desired, ap, ts) = old(self).apply_plan(*w).unwrap();
                &&& w.performed(0, EffectView::Replace(cur, desired))
                &&& final(self).session.applied@ == ap
                &&& final(self).session.stage == Stage::Applied
                &&& !final(self).session.pending_proposal
                &&& final(self).session.pending_base is None
                &&& final(self).session.active_tour is None
                &&& final(self).session.change_index == 0
                &&& drafted(old(self).session.drafts@, final(self).session.drafts@, old(self).effective().unwrap().0, dt)
                &&& location_view(final(self).navigation) == change_location(old(self).workspace, ts, 0)
                &&& final(self).generation == old(self).generation + 1
                &&& final(self).session.proposals == old(self).session.proposals
                &&& final(self).session.selected == old(self).session.selected
                &&& final(self).session.tours == old(self).session.tours
                &&& final(self).session.human == old(self).session.human
                &&& final(self).session.baseline == old(self).session.baseline
                &&& final(self).busy == old(self).busy
                &&& final(self).turn == old(self).turn
                &&& final(self).workspace == old(self).workspace
                &&& final(self).editor == old(self).editor
                &&& final(self).editor_connected == old(self).editor_connected
            },
    {
        if self.busy || self.session.stage != Stage::Tour {
            return Err(Fault::Refused(Refusal::ApplyNeedsTour));
        }
        match self.saved() {
            Ok(()) => {},
            Err(e) => {
                return Err(Fault::Refused(e));
            },
        }
        let pb = match &self.session.pending_base {
            Some(t) => t.clone(),
            None => {
                return Err(Fault::Refused(Refusal::MissingApplicationBaseline));
            },
        };
        let base = load(w, &pb)?;
        let (draft, dt) = self.remembered(w, 0)?;
        let p = match self.effective_proposal() {
            Some(p) => p,
            None => {
                return Err(Fault::Refused(Refusal::MissingProposal));
            },
        };
        let id = p.id;
        let kept = Some((id, dt.clone()));
        let target = match preserve_human(w, &self.session.human, &base, &draft) {
            Ok(x) => x,
            Err(f) => {
                return self.keep(f, None, kept);
            },
        };
        let current = match self.current_at(w, 0) {
            Ok(x) => x,
            Err(f) => {
                return self.keep(f, None, kept);
            },
        };
        let desired = match merge3(w, &base, &current, &target) {
            Ok(x) => x,
            Err(f) => {
                return self.keep(f, None, kept);
            },
        };
        match w.perform(0, Effect::Replace(current.copy(), desired.copy())) {
            Ok(()) => {},
            Err(f) => {
                return self.keep(f, None, kept);
            },
        }
        let applied = match w.store(&target) {
            Ok(x) => x,
            Err(f) => {
                return self.keep(f, None, kept);
            },
        };
        let next = Proposal { id: p.id, base: p.base, tree: dt.clone() };
        let navigation = match self.navigation_for(w, &next, 0) {
            Ok(x) => x,
            Err(f) => {
                return self.keep(f, None, kept);
            },
        };
        self.session.drafts.insert(id, dt);
        self.session.applied = applied;
        self.session.stage = Stage::Applied;
        self.session.pending_proposal = false;
        self.session.pending_base = None;
        self.session.active_tour = None;
        self.session.change_index = 0;
        self.navigation = navigation;
        self.generation = self.generation + 1;
        Ok(())
    }
}

impl Controller {
    /// The write reverting change `id` orders, if it gets that far: the real files, and
    /// what they become, where both merges succeed.
    pub open spec fn revert_write(&self, w: World, id: usize) -> Option<(Files, Files)> {
        match (self.effective(), self.current_of(w, 0)) {
            (Some(e), Some(cur)) => match (targets_of(w, e.1, e.2), fetch(w, e.2), fetch(w, self.session.applied@)) {
                (Some(ts), Some(tree), Some(ap)) => if id < ts.len() {
                    let target = reverted(tree, ts[id as int]);
                    match (merge_of(w, tree, cur, target), merge_of(w, tree, ap, target)) {
                        (Some(desired), Some(expected)) => Some((cur, desired)),
                        _ => None,
                    }
                } else {
                    None
                },
                _ => None,
            },
            _ => None,
        }
    }

    /// What reverting change `id` reads and orders, if the world knows it all: the real
    /// files, the files they become, and the tree the applied files become.
    pub open spec fn revert_plan(&self, w: World, id: usize) -> Option<(Files, Files, Seq<char>)> {
        match (self.effective(), self.current_of(w, 0)) {
            (Some(e), Some(cur)) => match (targets_of(w, e.1, e.2), fetch(w, e.2), fetch(w, self.session.applied@)) {
                (Some(ts), Some(tree), Some(ap)) => if id < ts.len() {
                    let target = reverted(tree, ts[id as int]);
                    match (merge_of(w, tree, cur, target), merge_of(w, tree, ap, target)) {
                        (Some(desired), Some(expected)) => match w.stored(expected) {
                            Some(et) => if w.performed(0, EffectView::Replace(cur, desired)) {
                                Some((cur, desired, et))
                            } else {
                                None
                            },
                            None => None,
                        },
                        _ => None,
                    }
                } else {
                    None
                },
                _ => None,
            },
            _ => None,
        }
    }

    /// Reverts change `id` of the applied proposal in the real files, and records the
    /// revert as a human choice that later revisions keep.
    pub fn revert(&mut self, w: &World, id: usize) -> (r: Result<(), Fault>)
        requires
            old(self).wf(),
            old(self).generation < u64::MAX,
        ensures
            final(self).wf(),
            old(self).busy || old(self).session.stage != Stage::Applied ==> r matches Err(Fault::Refused(Refusal::RevertNeedsApplied)),
            !old(self).busy && old(self).session.stage == Stage::Applied && !old(self).editor_saved() ==> (r matches Err(Fault::Refused(e))
                && (e is EditorDisconnected || e is UnsavedBuffers)),
            !old(self).busy && old(self).session.stage == Stage::Applied && old(self).editor_saved() && (old(self).effective() matches Some(e)
                && targets_of(*w, e.1, e.2) matches Some(ts) && id >= ts.len()) ==> r matches Err(Fault::Refused(Refusal::UnknownChange)),
            r is Ok <==> !old(self).busy && old(self).session.stage == Stage::Applied && old(self).editor_saved() && old(self).revert_plan(*w, id) is Some,
            r matches Err(Fault::Need(Need::Perform(k, e))) ==> k == 0 && (old(self).revert_write(*w, id) matches Some((c, d))
                && e@ == EffectView::Replace(c, d)),
            r is Err ==> *final(self) == *old(self),
            r is Ok ==> {
                let (cur, desired, et) = old(self).revert_plan(*w, id).unwrap();
                &&& w.performed(0, EffectView::Replace(cur, desired))
                &&& final(self).session.applied@ == et
                &&& human_views(final(self).session.human@) == human_views(old(self).session.human@).push((old(self).session.applied@, et))
                &&& final(self).generation == old(self).generation + 1
                &&& final(self).session.stage == old(self).session.stage
                &&& final(self).session.proposals == old(self).session.proposals
                &&& final(self).session.selected == old(self).session.selected
                &&& final(self).session.tours == old(self).session.tours
                &&& final(self).session.drafts == old(self).session.drafts
                &&& final(self).session.baseline == old(self).session.baseline
                &&& final(self).session.pending_base == old(self).session.pending_base
                &&& final(self).session.pending_proposal == old(self).session.pending_proposal
                &&& final(self).session.active_tour == old(self).session.active_tour
                &&& final(self).session.change_index == old(self).session.change_index
                &&& final(self).navigation == old(self).navigation
                &&& final(self).busy == old(self).busy
                &&& final(self).turn == old(self).turn
                &&& final(self).workspace == old(self).workspace
                &&& final(self).editor == old(self).editor
                &&& final(self).editor_connected == old(self).editor_connected
            },
    {
        if self.busy || self.session.stage != Stage::Applied {
            return Err(Fault::Refused(Refusal::RevertNeedsApplied));
        }
        match self.saved() {
            Ok(()) => {},
            Err(e) => {
                return Err(Fault::Refused(e));
            },
        }
        let p = match self.effective_proposal() {
            Some(p) => p,
            None => {
                return Err(Fault::Refused(Refusal::MissingProposal));
            },
        };
        let targets = change_targets(w, &p)?;
        if id >= targets.len() {
            return Err(Fault::Refused(Refusal::UnknownChange));
        }
        let change = &targets[id];
        let tree = load(w, &p.tree)?;
        let mut target = tree.copy();
        match &change.replacement {
            Some(f) => target.insert(change.file.clone(), f.copy()),
            None => target.remove(change.file.as_str()),
        }
        let current = self.current_at(w, 0)?;
        let desired = merge3(w, &tree, &current, &target)?;
        let applied = load(w, &self.session.applied)?;
        let expected = merge3(w, &tree, &applied, &target)?;
        let et = w.store(&expected)?;
        w.perform(0, Effect::Replace(current.copy(), desired.copy()))?;
        let ghost before = human_views(self.session.human@);
        let edit = HumanEdit { before: self.session.applied.clone(), after: et.clone() };
        self.session.human.push(edit);
        assert(human_views(self.session.human@) =~= before.push((old(self).session.applied@, et@)));
        self.session.applied = et;
        self.generation = self.generation + 1;
        Ok(())
    }

    /// Moves `offset` changes through the applied proposal's changes, staying within them.
    pub fn change_move(&mut self, w: &World, offset: isize) -> (r: Result<(), Fault>)
        requires
            old(self).wf(),
            old(self).generation < u64::MAX,
        ensures
            final(self).wf(),
            reads_only(r),
            old(self).session.stage != Stage::Applied ==> r matches Err(Fault::Refused(Refusal::NoAppliedProposal)),
            r is Ok <==> old(self).session.stage == Stage::Applied && old(self).changes_of(*w) is Some,
            r is Err ==> *final(self) == *old(self),
            r is Ok ==> {
                let ts = old(self).changes_of(*w).unwrap();
                let i = moved(old(self).session.change_index, offset, if ts.len() == 0 { 0 } else { ts.len() - 1 });
                &&& final(self).session.change_index == i
                &&& location_view(final(self).navigation) == change_location(old(self).workspace, ts, i)
                &&& final(self).generation == old(self).generation + 1
                &&& final(self).session.stage == old(self).session.stage
                &&& final(self).session.proposals == old(self).session.proposals
                &&& final(self).session.selected == old(self).session.selected
                &&& final(self).session.tours == old(self).session.tours
                &&& final(self).session.drafts == old(self).session.drafts
                &&& final(self).session.applied == old(self).session.applied
                &&& final(self).session.human == old(self).session.human
                &&& final(self).session.active_tour == old(self).session.active_tour
                &&& final(self).busy == old(self).busy
                &&& final(self).turn == old(self).turn
                &&& final(self).workspace == old(self).workspace
                &&& final(self).editor == old(self).editor
                &&& final(self).editor_connected == old(self).editor_connected
            },
    {
        if self.session.stage != Stage::Applied {
            return Err(Fault::Refused(Refusal::NoAppliedProposal));
        }
        let n = self.changes(w)?.len();
        let last = if n == 0 { 0 } else { n - 1 };
        let target: i128 = self.session.change_index as i128 + offset as i128;
        let saturated: usize = if target < 0 {
            0
        } else if target > usize::MAX as i128 {
            usize::MAX
        } else {
            target as usize
        };
        let index = if saturated > last { last } else { saturated };
        let navigation = match self.effective_proposal() {
            Some(p) => self.navigation_for(w, &p, index)?,
            None => None,
        };
        self.session.change_index = index;
        self.navigation = navigation;
        self.generation = self.generation + 1;
        Ok(())
    }
}

/// The index of the last tour of proposal `id`.
pub open spec fn last_tour_of(tours: Seq<Tour>, id: usize) -> Option<int>
    decreases tours.len(),
{
    if tours.len() == 0 {
        None
    } else if tours.last().source == TourSource::Proposal(id) {
        Some(tours.len() - 1)
    } else {
        last_tour_of(tours.drop_last(), id)
    }
}

proof fn lemma_last_tour_bound(tours: Seq<Tour>, id: usize)
    ensures
        last_tour_of(tours, id) matches Some(i) ==> 0 <= i < tours.len(),
    decreases tours.len(),
{
    if tours.len() > 0 {
        lemma_last_tour_bound(tours.drop_last(), id);
    }
}

/// Switching to a proposal resumes its latest tour: the tour found has the proposal as its
/// source and no later tour has, and none is found only where no tour has.
pub proof fn law_switch_resumes_latest_tour(tours: Seq<Tour>, id: usize)
    ensures
        match last_tour_of(tours, id) {
            Some(i) => {
                &&& 0 <= i < tours.len()
                &&& tours[i].source == TourSource::Proposal(id)
                &&& forall|j: int| i < j < tours.len() ==> tours[j].source != TourSource::Proposal(id)
            },
            None => forall|j: int| 0 <= j < tours.len() ==> tours[j].source != TourSource::Proposal(id),
        },
    decreases tours.len(),
{
    if tours.len() > 0 {
        let rest = tours.drop_last();
        law_switch_resumes_latest_tour(rest, id);
        assert forall|j: int| 0 <= j < rest.len() implies rest[j] == tours[j] by {}
    }
}

/// The index of the first proposal with id `id`.
pub open spec fn proposal_index(props: Seq<Proposal>, id: usize) -> Option<int> {
    if exists|i: int| 0 <= i < props.len() && #[trigger] props[i].id == id {
        Some(choose|i: int| 0 <= i < props.len() && #[trigger] props[i].id == id
            && forall|j: int| 0 <= j < i ==> #[trigger] props[j].id != id)
    } else {
        None
    }
}

impl Controller {
    /// The human edits after observing the real files stored as `tree`: with proposals
    /// made, a change away from the applied tree is recorded as the human's.
    pub open spec fn observed_views(&self, tree: Seq<char>) -> Seq<(Seq<char>, Seq<char>)> {
        if self.session.proposals@.len() > 0 && tree != self.session.applied@ {
            human_views(self.session.human@).push((self.session.applied@, tree))
        } else {
            human_views(self.session.human@)
        }
    }

    fn observed_human(&self, tree: &String) -> (r: Vec<HumanEdit>)
        ensures
            human_views(r@) == self.observed_views(tree@),
    {
        let mut out: Vec<HumanEdit> = Vec::new();
        let mut i: usize = 0;
        while i < self.session.human.len()
            invariant
                i <= self.session.human@.len(),
                human_views(out@) == human_views(self.session.human@.take(i as int)),
            decreases self.session.human.len() - i,
        {
            let e = &self.session.human[i];
            out.push(HumanEdit { before: e.before.clone(), after: e.after.clone() });
            assert(human_views(self.session.human@.take(i + 1)) =~= human_views(self.session.human@.take(i as int)).push((e.before@, e.after@)));
            assert(human_views(out@) =~= human_views(self.session.human@.take(i + 1)));
            i = i + 1;
        }
        assert(self.session.human@.take(i as int) =~= self.session.human@);
        if self.session.proposals.len() > 0 && *tree != self.session.applied {
            let ghost before = human_views(out@);
            out.push(HumanEdit { before: self.session.applied.clone(), after: tree.clone() });
            assert(human_views(out@) =~= before.push((self.session.applied@, tree@)));
        }
        out
    }

    /// The files `begin` starts the build from, given the real files `cur` stored as `ct`:
    /// the real files, or, while a proposal is pending, its saved preview merged into them
    /// keeping the human's choices.
    pub open spec fn starting_of(&self, w: World, cur: Files, ct: Seq<char>) -> Option<Files> {
        if self.session.pending_proposal {
            match (self.remember_of(w, 0), self.session.pending_base) {
                (Some((draft, _)), Some(pb)) => match fetch(w, pb@) {
                    Some(pbf) => match merge_of(w, pbf, cur, draft) {
                        Some(m) => preserve_of(w, self.observed_views(ct), cur, m),
                        None => None,
                    },
                    None => None,
                },
                _ => None,
            }
        } else {
            Some(cur)
        }
    }

    /// What `begin` reads and orders: the real files' tree, the starting files, their tree.
    pub open spec fn begin_plan(&self, w: World) -> Option<(Seq<char>, Files, Seq<char>)> {
        match self.current_of(w, 0) {
            Some(cur) => match w.stored(cur) {
                Some(ct) => match self.starting_of(w, cur, ct) {
                    Some(st) => match w.stored(st) {
                        Some(stt) => if w.performed(0, EffectView::Sync(st)) { Some((ct, st, stt)) } else { None },
                        None => None,
                    },
                    None => None,
                },
                None => None,
            },
            None => None,
        }
    }

    /// `self` is `old` with its build begun: the shadow files hold the starting files, the turn
    /// remembers where it started, and the agent works.
    pub open spec fn began(&self, old: Controller, w: World) -> bool {
        let (ct, st, stt) = old.begin_plan(w).unwrap();
        &&& w.performed(0, EffectView::Sync(st))
        &&& self.turn matches Some(t) && t.tree@ == stt && t.stage == old.session.stage
            && t.tour == old.session.active_tour && !t.refinement
        &&& self.session.pending_base matches Some(b) && b@ == ct
        &&& self.session.stage == Stage::Building
        &&& self.session.active_tour is None
        &&& self.busy
        &&& human_views(self.session.human@) == old.observed_views(ct)
        &&& if old.session.pending_proposal {
            drafted(old.session.drafts@, self.session.drafts@, old.effective().unwrap().0,
                old.remember_of(w, 0).unwrap().1)
        } else {
            self.session.drafts == old.session.drafts
        }
        &&& self.session.proposals == old.session.proposals
        &&& self.session.selected == old.session.selected
        &&& self.session.tours == old.session.tours
        &&& self.session.applied == old.session.applied
        &&& self.session.baseline == old.session.baseline
        &&& self.session.pending_proposal == old.session.pending_proposal
        &&& self.session.change_index == old.session.change_index
        &&& self.navigation == old.navigation
        &&& self.generation == old.generation
        &&& self.workspace == old.workspace
        &&& self.editor == old.editor
        &&& self.editor_connected == old.editor_connected
    }

    /// What `begin` has observed when it is refused after reading the real files: the
    /// human edits they show, and, while a proposal is pending, the saved preview it keeps
    /// as that proposal's draft.
    pub open spec fn begin_seen(&self, w: World) -> (Option<Seq<(Seq<char>, Seq<char>)>>, Option<(usize, Seq<char>)>) {
        if !self.busy && self.session.stage != Stage::Building && self.editor_saved() {
            match self.current_of(w, 0) {
                Some(cur) => match w.stored(cur) {
                    Some(ct) => (Some(self.observed_views(ct)), if self.session.pending_proposal {
                        match (self.remember_of(w, 0), self.effective()) {
                            (Some((_, dt)), Some(e)) => Some((e.0, dt)),
                            _ => None,
                        }
                    } else {
                        None
                    }),
                    None => (None, None),
                },
                None => (None, None),
            }
        } else {
            (None, None)
        }
    }

    /// Starts building: the shadow files become the starting point, and the agent works.
    pub fn begin(&mut self, w: &World) -> (r: Result<(), Fault>)
        requires
            old(self).wf(),
        ensures
            final(self).wf(),
            old(self).busy || old(self).session.stage == Stage::Building ==> r matches Err(Fault::Refused(Refusal::BeginWhileBusy)),
            !old(self).busy && old(self).session.stage != Stage::Building && !old(self).editor_saved() ==> (r matches Err(Fault::Refused(e))
                && (e is EditorDisconnected || e is UnsavedBuffers)),
            r is Ok <==> !old(self).busy && old(self).session.stage != Stage::Building && old(self).editor_saved() && old(self).begin_plan(*w) is Some,
            r matches Err(Fault::Need(Need::Perform(k, e))) ==> k == 0 && e@ is Sync,
            r matches Err(Fault::Need(_)) ==> *final(self) == *old(self),
            r matches Err(Fault::Refused(_)) ==> final(self).kept(*old(self), old(self).begin_seen(*w).0, old(self).begin_seen(*w).1),
            r is Ok ==> final(self).began(*old(self), *w),
    {
        if self.busy || self.session.stage == Stage::Building {
            return Err(Fault::Refused(Refusal::BeginWhileBusy));
        }
        match self.saved() {
            Ok(()) => {},
            Err(e) => {
                return Err(Fault::Refused(e));
            },
        }
        let current = self.current_at(w, 0)?;
        let ct = w.store(&current)?;
        let human = self.observed_human(&ct);
        let mut draft_tree: Option<(usize, String)> = None;
        let starting = if self.session.pending_proposal {
            let (draft, dt) = match self.remembered(w, 0) {
                Ok(x) => x,
                Err(f) => {
                    return self.keep(f, Some(human), None);
                },
            };
            let id = match self.effective_proposal() {
                Some(p) => p.id,
                None => {
                    return self.keep(Fault::Refused(Refusal::MissingProposal), Some(human), None);
                },
            };
            draft_tree = Some((id, dt));
            let pb = match &self.session.pending_base {
                Some(t) => t.clone(),
                None => {
                    return self.keep(Fault::Refused(Refusal::MissingPendingBaseline), Some(human), draft_tree);
                },
            };
            let pbf = match load(w, &pb) {
                Ok(x) => x,
                Err(f) => {
                    return self.keep(f, Some(human), draft_tree);
                },
            };
            let merged = match merge3(w, &pbf, &current, &draft) {
                Ok(x) => x,
                Err(f) => {
                    return self.keep(f, Some(human), draft_tree);
                },
            };
            match preserve_human(w, &human, &current, &merged) {
                Ok(x) => x,
                Err(f) => {
                    return self.keep(f, Some(human), draft_tree);
                },
            }
        } else {
            current.copy()
        };
        let stt = match w.store(&starting) {
            Ok(t) => t,
            Err(f) => {
                return self.keep(f, Some(human), draft_tree);
            },
        };
        match self.workspace.sync(w, 0, &starting) {
            Ok(()) => {},
            Err(f) => {
                return self.keep(f, Some(human), draft_tree);
            },
        }
        match draft_tree {
            Some((id, dt)) => {
                self.session.drafts.insert(id, dt);
            },
            None => {},
        }
        self.turn = Some(ProposalTurn { tree: stt, stage: self.session.stage, tour: self.session.active_tour, refinement: false });
        self.session.human = human;
        self.session.pending_base = Some(ct);
        self.session.stage = Stage::Building;
        self.session.active_tour = None;
        self.busy = true;
        Ok(())
    }
}

impl Controller {
    /// The tree switching to proposal `id` targets: its saved preview, counting the one
    /// saved just before when a proposal is pending, else its own tree.
    pub open spec fn switch_tree(&self, w: World, id: usize) -> Option<Seq<char>> {
        match proposal_index(self.session.proposals@, id) {
            Some(i) => if self.session.pending_proposal {
                match (self.effective(), self.remember_of(w, 0)) {
                    (Some(e), Some((_, dt))) => Some(if e.0 == id {
                        dt
                    } else if self.session.drafts@.dom().contains(id) {
                        self.session.drafts@[id]@
                    } else {
                        self.session.proposals@[i].tree@
                    }),
                    _ => None,
                }
            } else {
                Some(if self.session.drafts@.dom().contains(id) {
                    self.session.drafts@[id]@
                } else {
                    self.session.proposals@[i].tree@
                })
            },
            None => None,
        }
    }

    /// What switching to proposal `id` reads and orders: the real files' tree and the
    /// shadow files it writes.
    pub open spec fn switch_plan(&self, w: World, id: usize) -> Option<(Seq<char>, Files)> {
        match (self.switch_tree(w, id), self.current_of(w, 0), fetch(w, self.session.applied@)) {
            (Some(t), Some(cur), Some(from)) => match (w.stored(cur), fetch(w, t)) {
                (Some(ct), Some(tf)) => match preserve_of(w, self.observed_views(ct), cur, tf) {
                    Some(target) => match merge_of(w, from, cur, target) {
                        Some(desired) => if w.performed(0, EffectView::Sync(desired)) { Some((ct, desired)) } else { None },
                        None => None,
                    },
                    None => None,
                },
                _ => None,
            },
            _ => None,
        }
    }

    fn last_tour(&self, id: usize) -> (r: Option<usize>)
        ensures
            r matches Some(i) ==> last_tour_of(self.session.tours@, id) == Some(i as int) && i < self.session.tours@.len(),
            r is None ==> last_tour_of(self.session.tours@, id) is None,
    {
        let mut i = self.session.tours.len();
        assert(self.session.tours@.take(i as int) =~= self.session.tours@);
        while i > 0
            invariant
                i <= self.session.tours@.len(),
                last_tour_of(self.session.tours@, id) == last_tour_of(self.session.tours@.take(i as int), id),
            decreases i,
        {
            assert(self.session.tours@.take(i as int).drop_last() =~= self.session.tours@.take(i - 1));
            if self.session.tours[i - 1].source == TourSource::Proposal(id) {
                return Some(i - 1);
            }
            i = i - 1;
        }
        None
    }

    /// What `switch` has observed when it is refused after finding the proposal: while a
    /// proposal is pending, its saved preview kept as its draft, and then the human edits
    /// that the real files show.
    pub open spec fn switch_seen(&self, w: World, id: usize) -> (Option<Seq<(Seq<char>, Seq<char>)>>, Option<(usize, Seq<char>)>) {
        if !self.busy && (self.session.stage == Stage::Applied || self.session.stage == Stage::Tour) && self.editor_saved()
            && proposal_index(self.session.proposals@, id) is Some {
            let draft = if self.session.pending_proposal {
                match (self.remember_of(w, 0), self.effective()) {
                    (Some((_, dt)), Some(e)) => Some((e.0, dt)),
                    _ => None,
                }
            } else {
                None
            };
            let human = if !self.session.pending_proposal || draft is Some {
                match self.current_of(w, 0) {
                    Some(cur) => match w.stored(cur) {
                        Some(ct) => Some(self.observed_views(ct)),
                        None => None,
                    },
                    None => None,
                }
            } else {
                None
            };
            (human, draft)
        } else {
            (None, None)
        }
    }

    /// Switches the shadow files to proposal `id`, keeping the human's choices, and shows
    /// its latest tour from the overview.
    pub fn switch(&mut self, w: &World, id: usize) -> (r: Result<(), Fault>)
        requires
            old(self).wf(),
            old(self).generation < u64::MAX,
        ensures
            final(self).wf(),
            old(self).busy || !(old(self).session.stage == Stage::Applied || old(self).session.stage == Stage::Tour)
                ==> r matches Err(Fault::Refused(Refusal::CannotSwitch)),
            !old(self).busy && (old(self).session.stage == Stage::Applied || old(self).session.stage == Stage::Tour) && !old(self).editor_saved()
                ==> (r matches Err(Fault::Refused(e)) && (e is EditorDisconnected || e is UnsavedBuffers)),
            !old(self).busy && (old(self).session.stage == Stage::Applied || old(self).session.stage == Stage::Tour) && old(self).editor_saved()
                && proposal_index(old(self).session.proposals@, id) is None ==> r matches Err(Fault::Refused(Refusal::UnknownProposal)),
            r is Ok <==> !old(self).busy && (old(self).session.stage == Stage::Applied || old(self).session.stage == Stage::Tour)
                && old(self).editor_saved() && old(self).switch_plan(*w, id) is Some,
            r matches Err(Fault::Need(Need::Perform(k, e))) ==> k == 0 && e@ is Sync,
            r matches Err(Fault::Need(_)) ==> *final(self) == *old(self),
            r matches Err(Fault::Refused(_)) ==> final(self).kept(*old(self), old(self).switch_seen(*w, id).0, old(self).switch_seen(*w, id).1),
            r is Ok ==> {
                let (ct, desired) = old(self).switch_plan(*w, id).unwrap();
                &&& w.performed(0, EffectView::Sync(desired))
                &&& final(self).session.pending_base matches Some(b) && b@ == ct
                &&& final(self).session.selected == Some(id)
                &&& final(self).session.pending_proposal
                &&& final(self).session.stage == Stage::Tour
                &&& human_views(final(self).session.human@) == old(self).observed_views(ct)
                &&& if old(self).session.pending_proposal {
                    drafted(old(self).session.drafts@, final(self).session.drafts@, old(self).effective().unwrap().0,
                        old(self).remember_of(*w, 0).unwrap().1)
                } else {
                    final(self).session.drafts == old(self).session.drafts
                }
                &&& final(self).session.active_tour == match last_tour_of(old(self).session.tours@, id) {
                    Some(i) => Some(i as usize),
                    None => None,
                }
                &&& final(self).session.tours@.len() == old(self).session.tours@.len()
                &&& forall|j: int| 0 <= j < old(self).session.tours@.len() ==> #[trigger] tour_at(final(self).session, j) == if Some(j) == last_tour_of(old(self).session.tours@, id) {
                    at_stop(tour_at(old(self).session, j), 0)
                } else {
                    tour_at(old(self).session, j)
                }
                &&& final(self).navigation is None
                &&& final(self).generation == old(self).generation + 1
                &&& final(self).session.proposals == old(self).session.proposals
                &&& final(self).session.applied == old(self).session.applied
                &&& final(self).session.baseline == old(self).session.baseline
                &&& final(self).session.change_index == old(self).session.change_index
                &&& final(self).busy == old(self).busy
                &&& final(self).turn == old(self).turn
                &&& final(self).workspace == old(self).workspace
                &&& final(self).editor == old(self).editor
                &&& final(self).editor_connected == old(self).editor_connected
            },
    {
        if self.busy || !(self.session.stage == Stage::Applied || self.session.stage == Stage::Tour) {
            return Err(Fault::Refused(Refusal::CannotSwitch));
        }
        match self.saved() {
            Ok(()) => {},
            Err(e) => {
                return Err(Fault::Refused(e));
            },
        }
        let pi = match self.find_proposal(id) {
            Some(i) => i,
            None => {
                return Err(Fault::Refused(Refusal::UnknownProposal));
            },
        };
        assert(proposal_index(self.session.proposals@, id) == Some(pi as int)) by {
            let k = choose|k: int| 0 <= k < self.session.proposals@.len() && #[trigger] self.session.proposals@[k].id == id
                && forall|j: int| 0 <= j < k ==> #[trigger] self.session.proposals@[j].id != id;
            assert(self.session.proposals@[pi as int].id == id);
            if k < pi {
            } else if k > pi {
            }
        }
        let mut remembered: Option<(usize, String)> = None;
        if self.session.pending_proposal {
            let (_, dt) = match self.remembered(w, 0) {
                Ok(x) => x,
                Err(f) => {
                    return self.keep(f, None, None);
                },
            };
            let sel = match self.effective_proposal() {
                Some(p) => p.id,
                None => {
                    return self.keep(Fault::Refused(Refusal::MissingProposal), None, None);
                },
            };
            remembered = Some((sel, dt));
        }
        let current = match self.current_at(w, 0) {
            Ok(x) => x,
            Err(f) => {
                return self.keep(f, None, remembered);
            },
        };
        let ct = match w.store(&current) {
            Ok(x) => x,
            Err(f) => {
                return self.keep(f, None, remembered);
            },
        };
        let human = self.observed_human(&ct);
        let tree = match &remembered {
            Some((sel, dt)) if *sel == id => dt.clone(),
            _ => match self.session.drafts.get(&id) {
                Some(t) => t.clone(),
                None => self.session.proposals[pi].tree.clone(),
            },
        };
        let tf = match load(w, &tree) {
            Ok(x) => x,
            Err(f) => {
                return self.keep(f, Some(human), remembered);
            },
        };
        let target = match preserve_human(w, &human, &current, &tf) {
            Ok(x) => x,
            Err(f) => {
                return self.keep(f, Some(human), remembered);
            },
        };
        let from = match load(w, &self.session.applied) {
            Ok(x) => x,
            Err(f) => {
                return self.keep(f, Some(human), remembered);
            },
        };
        let desired = match merge3(w, &from, &current, &target) {
            Ok(x) => x,
            Err(f) => {
                return self.keep(f, Some(human), remembered);
            },
        };
        match self.workspace.sync(w, 0, &desired) {
            Ok(()) => {},
            Err(f) => {
                return self.keep(f, Some(human), remembered);
            },
        }
        match remembered {
            Some((sel, dt)) => {
                self.session.drafts.insert(sel, dt);
            },
            None => {},
        }
        self.session.human = human;
        self.session.pending_base = Some(ct);
        self.session.selected = Some(id);
        self.session.pending_proposal = true;
        self.session.stage = Stage::Tour;
        let last = self.last_tour(id);
        proof {
            lemma_last_tour_bound(self.session.tours@, id);
        }
        self.session.active_tour = last;
        match last {
            Some(i) => {
                let mut tours: Vec<Tour> = Vec::new();
                std::mem::swap(&mut tours, &mut self.session.tours);
                let mut t = tours.remove(i);
                let ghost old_t = t@;
                t.current_stop = 0;
                assert(t@ == at_stop(old_t, 0));
                tours.insert(i, t);
                self.session.tours = tours;
                proof {
                    assert forall|j: int| 0 <= j < old(self).session.tours@.len() && j != i implies #[trigger] self.session.tours@[j] == old(self).session.tours@[j] by {
                        if j < i {
                        } else {
                        }
                    }
                    assert(tour_at(self.session, i as int) == at_stop(tour_at(old(self).session, i as int), 0));
                }
            },
            None => {},
        }
        proof {
            assert forall|j: int| 0 <= j < old(self).session.tours@.len() implies #[trigger] tour_at(self.session, j) == if Some(j) == last_tour_of(old(self).session.tours@, id) {
                at_stop(tour_at(old(self).session, j), 0)
            } else {
                tour_at(old(self).session, j)
            } by {
                match last {
                    Some(i) => {
                        assert(last_tour_of(old(self).session.tours@, id) == Some(i as int));
                        if j != i {
                            assert(self.session.tours@[j] == old(self).session.tours@[j]);
                        }
                    },
                    None => {
                        assert(last_tour_of(old(self).session.tours@, id) is None);
                    },
                }
            }
        }
        self.navigation = None;
        self.generation = self.generation + 1;
        Ok(())
    }
}

impl Controller {
    /// The files the shadow tree is read with when a build completes: the pending base's
    /// paths and the turn's starting paths.
    pub open spec fn build_known(&self, w: World) -> Option<Files> {
        match self.session.pending_base {
            Some(pb) => match fetch(w, pb@) {
                Some(bf) => match self.turn {
                    Some(t) => match fetch(w, t.tree@) {
                        Some(tf) => Some(bf.union_prefer_right(tf)),
                        None => None,
                    },
                    None => Some(bf),
                },
                None => None,
            },
            None => None,
        }
    }

    /// What completing a build with `tour` reads: the pending base, the built files and
    /// their tree, provided the build changes no human choice and the tour fits the files.
    pub open spec fn complete_plan(&self, w: World, tour: crate::protocol::DraftView) -> Option<(Seq<char>, Files, Seq<char>)> {
        match (self.session.pending_base, self.build_known(w)) {
            (Some(pb), Some(known)) => match (fetch(w, pb@), w.captured(Place::Shadow, known, 0)) {
                (Some(bf), Some(result)) => match undo_human(w, human_views(self.session.human@), bf) {
                    Some(ancestor) => if merge_of(w, bf, result, ancestor) is Some && crate::controller::tour_check(tour, result) is Valid {
                        match w.stored(result) {
                            Some(t) => Some((pb@, result, t)),
                            None => None,
                        }
                    } else {
                        None
                    },
                    None => None,
                },
                _ => None,
            },
            _ => None,
        }
    }

    /// `self` is `old` after a build completed as proposal `tree` from base `pb`, with
    /// `tour` as its tour, shown from its overview.
    pub open spec fn completed(&self, old: Controller, pb: Seq<char>, tree: Seq<char>, tour: TourDraft) -> bool {
        let id = (old.session.proposals@.len() + 1) as usize;
        &&& self.session.proposals@.len() == old.session.proposals@.len() + 1
        &&& self.session.proposals@.take(old.session.proposals@.len() as int) == old.session.proposals@
        &&& self.session.proposals@.last().id == id
        &&& self.session.proposals@.last().base@ == pb
        &&& self.session.proposals@.last().tree@ == tree
        &&& self.session.selected == Some(id)
        &&& self.session.pending_proposal
        &&& self.session.tours@ == old.session.tours@.push(Tour { id: (old.session.tours@.len() + 1) as usize, source: TourSource::Proposal(id), current_stop: 0, content: tour })
        &&& self.session.active_tour == Some(old.session.tours@.len() as usize)
        &&& self.session.change_index == 0
        &&& self.session.stage == Stage::Tour
        &&& !self.busy
        &&& self.turn is None
        &&& self.navigation is None
        &&& self.generation == old.generation + 1
        &&& self.session.pending_base == old.session.pending_base
        &&& self.session.drafts == old.session.drafts
        &&& self.session.human == old.session.human
        &&& self.session.applied == old.session.applied
        &&& self.session.baseline == old.session.baseline
        &&& self.workspace == old.workspace
        &&& self.editor == old.editor
        &&& self.editor_connected == old.editor_connected
    }

    /// Completes a build, or a refinement that changed the proposal: the shadow files
    /// become a new proposal with `tour` as its tour.
    pub fn complete(&mut self, w: &World, tour: TourDraft) -> (r: Result<(), Fault>)
        requires
            old(self).wf(),
            old(self).generation < u64::MAX,
            old(self).session.tours@.len() < usize::MAX,
            old(self).session.proposals@.len() < usize::MAX,
        ensures
            final(self).wf(),
            reads_only(r),
            !(old(self).session.stage == Stage::Building || (old(self).turn matches Some(t) && t.refinement))
                ==> r matches Err(Fault::Refused(Refusal::NoBuildToComplete)),
            (old(self).session.stage == Stage::Building || (old(self).turn matches Some(t) && t.refinement)) && old(self).session.pending_base is None
                ==> r matches Err(Fault::Refused(Refusal::MissingBuildBaseline)),
            r is Ok <==> (old(self).session.stage == Stage::Building || (old(self).turn matches Some(t) && t.refinement))
                && old(self).complete_plan(*w, tour@) is Some,
            r is Err ==> *final(self) == *old(self),
            r is Ok ==> {
                let (pb, result, tree) = old(self).complete_plan(*w, tour@).unwrap();
                final(self).completed(*old(self), pb, tree, tour)
            },
    {
        if !(self.session.stage == Stage::Building || self.refining()) {
            return Err(Fault::Refused(Refusal::NoBuildToComplete));
        }
        let pb = match &self.session.pending_base {
            Some(t) => t.clone(),
            None => {
                return Err(Fault::Refused(Refusal::MissingBuildBaseline));
            },
        };
        let mut known = load(w, &pb)?;
        match &self.turn {
            Some(t) => {
                let tf = load(w, &t.tree)?;
                known.extend(&tf);
            },
            None => {},
        }
        let result = w.capture(Place::Shadow, &known, 0)?;
        let base_files = load(w, &pb)?;
        let ancestor = without_human(w, &self.session.human, &base_files)?;
        match merge3(w, &base_files, &result, &ancestor) {
            Ok(_) => {},
            Err(Fault::Refused(Refusal::Conflict(paths))) => {
                return Err(Fault::Refused(Refusal::RevisionOverlap(paths)));
            },
            Err(f) => {
                return Err(f);
            },
        }
        match crate::controller::validate_tour(&tour, &result) {
            Ok(()) => {},
            Err(e) => {
                return Err(Fault::Refused(e));
            },
        }
        let tree = w.store(&result)?;
        let id = self.session.proposals.len() + 1;
        let ghost before = self.session.proposals@;
        self.session.proposals.push(Proposal { id, base: pb, tree });
        assert(self.session.proposals@.take(before.len() as int) =~= before);
        self.session.selected = Some(id);
        self.session.pending_proposal = true;
        self.add_tour(TourSource::Proposal(id), tour);
        self.session.change_index = 0;
        self.session.stage = Stage::Tour;
        self.busy = false;
        self.turn = None;
        self.navigate_tour();
        Ok(())
    }

    /// What a failed turn reads and orders: the starting files it restores, and the tree
    /// of the saved preview after that while a proposal is pending.
    pub open spec fn failed_plan(&self, w: World) -> Option<(Files, Option<Seq<char>>)> {
        match self.turn {
            Some(t) => match fetch(w, t.tree@) {
                Some(f) => if w.performed(0, EffectView::Sync(f)) {
                    if self.session.pending_proposal {
                        match self.remember_of(w, 1) {
                            Some((_, dt)) => Some((f, Some(dt))),
                            None => None,
                        }
                    } else {
                        Some((f, None))
                    }
                } else {
                    None
                },
                None => None,
            },
            None => Some((Map::empty(), None)),
        }
    }

    /// `self` is `old` after its agent turn ended without a proposal: back where the turn
    /// started, with the shadow files restored.
    pub open spec fn restored(&self, old: Controller, w: World) -> bool {
        &&& !self.busy
        &&& self.turn is None
        &&& match old.turn {
            Some(t) => {
                &&& self.session.stage == t.stage
                &&& self.session.active_tour == t.tour
                &&& self.generation == old.generation + 1
                &&& match old.failed_plan(w) {
                    Some((_, Some(dt))) => drafted(old.session.drafts@, self.session.drafts@, old.effective().unwrap().0, dt),
                    _ => self.session.drafts == old.session.drafts,
                }
            },
            None => {
                &&& self.session.stage == old.session.stage
                &&& self.session.active_tour == old.session.active_tour
                &&& self.generation == old.generation
                &&& self.session.drafts == old.session.drafts
            },
        }
        &&& self.session.proposals == old.session.proposals
        &&& self.session.selected == old.session.selected
        &&& self.session.tours == old.session.tours
        &&& self.session.pending_base == old.session.pending_base
        &&& self.session.pending_proposal == old.session.pending_proposal
        &&& self.session.change_index == old.session.change_index
        &&& self.session.human == old.session.human
        &&& self.session.applied == old.session.applied
        &&& self.session.baseline == old.session.baseline
        &&& self.navigation == old.navigation
        &&& self.workspace == old.workspace
        &&& self.editor == old.editor
        &&& self.editor_connected == old.editor_connected
    }

    /// Ends an agent turn that brought no proposal: the shadow files return to where the
    /// turn started, and so do the stage and the active tour.
    pub fn failed(&mut self, w: &World) -> (r: Result<(), Fault>)
        requires
            old(self).wf(),
            old(self).generation < u64::MAX,
        ensures
            final(self).wf(),
            r is Ok <==> old(self).failed_plan(*w) is Some,
            r matches Err(Fault::Need(Need::Perform(k, e))) ==> k == 0 && e@ is Sync,
            r is Err ==> *final(self) == *old(self),
            r is Ok ==> {
                &&& final(self).restored(*old(self), *w)
                &&& (old(self).turn is Some ==> w.performed(0, EffectView::Sync(old(self).failed_plan(*w).unwrap().0)))
            },
    {
        let (stage, tour, tree) = match &self.turn {
            Some(t) => (t.stage, t.tour, t.tree.clone()),
            None => {
                self.busy = false;
                return Ok(());
            },
        };
        let files = load(w, &tree)?;
        self.workspace.sync(w, 0, &files)?;
        let mut draft: Option<(usize, String)> = None;
        if self.session.pending_proposal {
            let (_, dt) = self.remembered(w, 1)?;
            let id = match self.effective_proposal() {
                Some(p) => p.id,
                None => {
                    return Err(Fault::Refused(Refusal::MissingProposal));
                },
            };
            draft = Some((id, dt));
        }
        match draft {
            Some((id, dt)) => {
                self.session.drafts.insert(id, dt);
            },
            None => {},
        }
        self.busy = false;
        self.turn = None;
        self.session.stage = stage;
        self.session.active_tour = tour;
        self.generation = self.generation + 1;
        Ok(())
    }
}

impl Controller {
    /// Ends a build: with a tour, as `complete`; without one, as a clarification that
    /// must have left the shadow files as they started, as `failed`.
    pub fn finish_build(&mut self, w: &World, tour: Option<TourDraft>) -> (r: Result<(), Fault>)
        requires
            old(self).wf(),
            old(self).generation < u64::MAX,
            old(self).session.tours@.len() < usize::MAX,
            old(self).session.proposals@.len() < usize::MAX,
        ensures
            final(self).wf(),
            old(self).session.stage != Stage::Building ==> r matches Err(Fault::Refused(Refusal::NoBuildToFinish)),
            r matches Err(Fault::Need(Need::Perform(k, e))) ==> k == 0 && e@ is Sync,
            old(self).session.stage == Stage::Building ==> match tour {
                Some(t) => {
                    &&& (r is Ok <==> old(self).complete_plan(*w, t@) is Some)
                    &&& (r is Ok ==> final(self).completed(*old(self), old(self).complete_plan(*w, t@).unwrap().0,
                        old(self).complete_plan(*w, t@).unwrap().2, t))
                },
                None => match old(self).turn {
                    None => r matches Err(Fault::Refused(Refusal::MissingBuildStart)),
                    Some(turn) => match fetch(*w, turn.tree@) {
                        Some(f) => match w.captured(Place::Shadow, f, 0) {
                            Some(c) => if c != f {
                                r matches Err(Fault::Refused(Refusal::UntouredChange))
                            } else {
                                &&& (r is Ok <==> old(self).failed_plan(*w) is Some)
                                &&& (r is Ok ==> final(self).restored(*old(self), *w))
                            },
                            None => r is Err,
                        },
                        None => r is Err,
                    },
                },
            },
            r is Err ==> *final(self) == *old(self),
    {
        if self.session.stage != Stage::Building {
            return Err(Fault::Refused(Refusal::NoBuildToFinish));
        }
        match tour {
            Some(t) => self.complete(w, t),
            None => {
                let tree = match &self.turn {
                    Some(t) => t.tree.clone(),
                    None => {
                        return Err(Fault::Refused(Refusal::MissingBuildStart));
                    },
                };
                let starting = load(w, &tree)?;
                let now = w.capture(Place::Shadow, &starting, 0)?;
                if !now.same(&starting) {
                    return Err(Fault::Refused(Refusal::UntouredChange));
                }
                self.failed(w)
            },
        }
    }

    /// `self` is `old` with a refinement of the proposal on tour begun from its saved preview.
    pub open spec fn refined(&self, old: Controller, w: World) -> bool {
        let dt = old.remember_of(w, 0).unwrap().1;
        &&& drafted(old.session.drafts@, self.session.drafts@, old.effective().unwrap().0, dt)
        &&& self.turn matches Some(t) && t.tree@ == dt && t.stage == old.session.stage
            && t.tour == old.session.active_tour && t.refinement
        &&& self.busy
        &&& self.session.stage == old.session.stage
        &&& self.session.proposals == old.session.proposals
        &&& self.session.selected == old.session.selected
        &&& self.session.tours == old.session.tours
        &&& self.session.active_tour == old.session.active_tour
        &&& self.session.pending_base == old.session.pending_base
        &&& self.session.pending_proposal == old.session.pending_proposal
        &&& self.session.change_index == old.session.change_index
        &&& self.session.human == old.session.human
        &&& self.session.applied == old.session.applied
        &&& self.session.baseline == old.session.baseline
        &&& self.navigation == old.navigation
        &&& self.generation == old.generation
        &&& self.workspace == old.workspace
        &&& self.editor == old.editor
        &&& self.editor_connected == old.editor_connected
    }

    /// Starts refining the proposal on tour: its saved preview is kept, and the agent
    /// works on the shadow files.
    pub fn refine(&mut self, w: &World) -> (r: Result<(), Fault>)
        requires
            old(self).wf(),
        ensures
            final(self).wf(),
            reads_only(r),
            old(self).busy || old(self).session.stage != Stage::Tour ==> r matches Err(Fault::Refused(Refusal::NoIdleProposal)),
            !old(self).busy && old(self).session.stage == Stage::Tour && !old(self).editor_saved() ==> (r matches Err(Fault::Refused(e))
                && (e is EditorDisconnected || e is UnsavedBuffers)),
            r is Ok <==> !old(self).busy && old(self).session.stage == Stage::Tour && old(self).editor_saved() && old(self).remember_of(*w, 0) is Some,
            r is Err ==> *final(self) == *old(self),
            r is Ok ==> final(self).refined(*old(self), *w),
    {
        if self.busy || self.session.stage != Stage::Tour {
            return Err(Fault::Refused(Refusal::NoIdleProposal));
        }
        match self.saved() {
            Ok(()) => {},
            Err(e) => {
                return Err(Fault::Refused(e));
            },
        }
        let (_, dt) = self.remembered(w, 0)?;
        let id = match self.effective_proposal() {
            Some(p) => p.id,
            None => {
                return Err(Fault::Refused(Refusal::MissingProposal));
            },
        };
        self.session.drafts.insert(id, dt.clone());
        self.turn = Some(ProposalTurn { tree: dt, stage: self.session.stage, tour: self.session.active_tour, refinement: true });
        self.busy = true;
        Ok(())
    }

    /// Whether the shadow files differ from where the refinement started, if known.
    pub open spec fn refinement_changed(&self, w: World) -> Option<bool> {
        match self.turn {
            Some(t) => match (self.preview_of(w, 0), fetch(w, t.tree@)) {
                (Some(p), Some(f)) => Some(p != f),
                _ => None,
            },
            None => None,
        }
    }

    /// Ends a refinement: a changed proposal completes as a new one and needs a tour; an
    /// unchanged one may get a new tour, and the agent is idle again.
    pub fn finish_refinement(&mut self, w: &World, tour: Option<TourDraft>) -> (r: Result<(), Fault>)
        requires
            old(self).wf(),
            old(self).generation < u64::MAX,
            old(self).session.tours@.len() < usize::MAX,
            old(self).session.proposals@.len() < usize::MAX,
        ensures
            final(self).wf(),
            reads_only(r),
            old(self).turn is None ==> r matches Err(Fault::Refused(Refusal::NoRefinement)),
            old(self).turn matches Some(t) && !t.refinement ==> r matches Err(Fault::Refused(Refusal::NotRefinement)),
            old(self).turn matches Some(t) && t.refinement ==> match old(self).refinement_changed(*w) {
                None => r is Err,
                Some(true) => match tour {
                    None => r matches Err(Fault::Refused(Refusal::ChangedProposalNeedsTour)),
                    Some(t) => {
                        &&& (r is Ok <==> old(self).complete_plan(*w, t@) is Some)
                        &&& (r is Ok ==> final(self).completed(*old(self), old(self).complete_plan(*w, t@).unwrap().0,
                            old(self).complete_plan(*w, t@).unwrap().2, t))
                    },
                },
                Some(false) => {
                    &&& (r is Ok ==> !final(self).busy && final(self).turn is None)
                    &&& match tour {
                        None => r is Ok && final(self).session == old(self).session && final(self).generation == old(self).generation
                            && final(self).navigation == old(self).navigation,
                        Some(t) => final(self).presents(*old(self), *w, t, r),
                    }
                },
            },
            r is Err ==> *final(self) == *old(self),
    {
        let (tree, refinement) = match &self.turn {
            Some(t) => (t.tree.clone(), t.refinement),
            None => {
                return Err(Fault::Refused(Refusal::NoRefinement));
            },
        };
        if !refinement {
            return Err(Fault::Refused(Refusal::NotRefinement));
        }
        let preview = self.preview(w, 0)?;
        let start = load(w, &tree)?;
        if !preview.same(&start) {
            match tour {
                Some(t) => self.complete(w, t),
                None => Err(Fault::Refused(Refusal::ChangedProposalNeedsTour)),
            }
        } else {
            match tour {
                Some(t) => {
                    self.present_tour(w, t)?;
                },
                None => {},
            }
            self.turn = None;
            self.busy = false;
            Ok(())
        }
    }
}

/// Ending a turn that brought no proposal a second time changes nothing: the first call
/// closes the turn, and the second, finding none, succeeds and leaves the controller as
/// the first left it.
pub proof fn law_failed_twice(c0: Controller, c1: Controller, c2: Controller, w1: World, w2: World)
    requires
        c1.restored(c0, w1),
        c2.restored(c1, w2),
    ensures
        c1.failed_plan(w2) is Some,
        c2 == c1,
{
    assert(c2.session == c1.session);
}

/// Applying with no recorded human edits, while the real files still are the pending
/// base, makes the real files exactly the saved preview of the proposal.
pub proof fn law_apply_fast_forward(c: Controller, w: World)
    requires
        c.session.human@.len() == 0,
        c.apply_write(w) is Some,
        c.session.pending_base matches Some(pb) && fetch(w, pb@) == c.current_of(w, 0),
    ensures
        c.apply_write(w).unwrap().1 == c.remember_of(w, 0).unwrap().0,
{
    let base = c.current_of(w, 0).unwrap();
    let draft = c.remember_of(w, 0).unwrap().0;
    assert(human_views(c.session.human@) =~= Seq::<(Seq<char>, Seq<char>)>::empty());
    law_merge_without_change_keeps_current(w, base, draft);
    law_merge_fast_forward(w, base, draft);
}

} // verus!
