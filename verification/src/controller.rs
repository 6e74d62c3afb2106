//! The session state machine: discussion, building, touring and application.
//!
//! Every operation is a function of the controller's state and a `World` of answers
//! (see `world`). Source writes go to the shadow working tree, except in `apply` and
//! `revert`, the only operations that order a change of the real working tree.
use vstd::prelude::*;
use std::collections::BTreeMap;
use vstd::view::View as Viewed;
use crate::protocol::{Stage, EditorContext, TourDraft, TourSource, Tour, TourView, DraftView, StopView, Proposal, View, Location};
use crate::snapshot::Snapshot;
use crate::workspace::{Workspace, join_path, joined, valid_path, is_valid_path};
use crate::world::{World, Files};
use crate::error::Refusal;
use crate::text::{blank, is_blank};
use crate::hunks::{newlines, count_newlines};

verus! {

broadcast use {vstd::std_specs::btree::group_btree_axioms, vstd::laws_cmp::group_laws_cmp};

/// A human's change to the real files between two applications, as two stored trees.
#[derive(Clone, Debug)]
pub struct HumanEdit {
    pub before: String,
    pub after: String,
}

/// What persists of a session.
#[derive(Clone, Debug)]
pub struct Session {
    pub stage: Stage,
    pub proposals: Vec<Proposal>,
    pub selected: Option<usize>,
    pub baseline: String,
    pub applied: String,
    pub pending_base: Option<String>,
    pub pending_proposal: bool,
    pub drafts: BTreeMap<usize, String>,
    pub tours: Vec<Tour>,
    pub active_tour: Option<usize>,
    pub change_index: usize,
    pub human: Vec<HumanEdit>,
}

/// Where an agent turn started, to return there if it fails.
#[derive(Clone, Debug)]
pub struct ProposalTurn {
    pub tree: String,
    pub stage: Stage,
    pub tour: Option<usize>,
    pub refinement: bool,
}

/// The controller of one session.
#[derive(Clone, Debug)]
pub struct Controller {
    pub workspace: Workspace,
    pub session: Session,
    pub editor: EditorContext,
    pub editor_connected: Option<bool>,
    pub busy: bool,
    pub generation: u64,
    pub navigation: Option<Location>,
    pub turn: Option<ProposalTurn>,
}

/// What an operation may leave behind besides its answer: the state after it.
pub open spec fn unchanged_session(a: Session, b: Session) -> bool {
    &&& a.stage == b.stage
    &&& a.proposals@ == b.proposals@
    &&& a.selected == b.selected
    &&& a.baseline@ == b.baseline@
    &&& a.applied@ == b.applied@
    &&& a.pending_base == b.pending_base
    &&& a.pending_proposal == b.pending_proposal
    &&& a.drafts@ == b.drafts@
    &&& a.tours@ == b.tours@
    &&& a.active_tour == b.active_tour
    &&& a.change_index == b.change_index
    &&& a.human@ == b.human@
}

/// Tour `i`, as values.
pub open spec fn tour_at(s: Session, i: int) -> TourView {
    s.tours@[i]@
}

impl Controller {
    /// The controller's structure holds: its active tour, and the tour an agent turn
    /// returns to, exist, and every tour stands between its overview and its last stop.
    pub open spec fn wf(&self) -> bool {
        &&& self.session.active_tour matches Some(i) ==> i < self.session.tours@.len()
        &&& self.turn matches Some(t) ==> (t.tour matches Some(i) ==> i < self.session.tours@.len())
        &&& forall|i: int| 0 <= i < self.session.tours@.len() ==> (#[trigger] self.session.tours@[i]).current_stop
            <= self.session.tours@[i].content.stops@.len()
    }

    /// The active tour, if any.
    pub open spec fn active(&self) -> Option<TourView> {
        match self.session.active_tour {
            Some(i) => if i < self.session.tours@.len() {
                Some(tour_at(self.session, i as int))
            } else {
                None
            },
            None => None,
        }
    }

    /// A new session whose baseline and applied trees are `baseline`.
    pub fn create(workspace: Workspace, baseline: String) -> (c: Controller)
        ensures
            c.wf(),
            c.session.stage == Stage::Discuss,
            c.session.proposals@.len() == 0,
            c.session.selected is None,
            c.session.baseline@ == baseline@,
            c.session.applied@ == baseline@,
            c.session.pending_base is None,
            !c.session.pending_proposal,
            c.session.drafts@ == Map::<usize, String>::empty(),
            c.session.tours@.len() == 0,
            c.session.active_tour is None,
            c.session.change_index == 0,
            c.session.human@.len() == 0,
            c.editor_connected is None,
            !c.busy,
            c.generation == 0,
            c.navigation is None,
            c.turn is None,
    {
        Controller {
            workspace,
            session: Session {
                stage: Stage::Discuss,
                proposals: Vec::new(),
                selected: None,
                baseline: baseline.clone(),
                applied: baseline,
                pending_base: None,
                pending_proposal: false,
                drafts: BTreeMap::new(),
                tours: Vec::new(),
                active_tour: None,
                change_index: 0,
                human: Vec::new(),
            },
            editor: EditorContext {
                file: None,
                line: 0,
                column: 0,
                selection: String::new(),
                selection_start_line: None,
                selection_end_line: None,
                nearby: String::new(),
                dirty: Vec::new(),
            },
            editor_connected: None,
            busy: false,
            generation: 0,
            navigation: None,
            turn: None,
        }
    }

    /// The index of the selected proposal, if it is one of the proposals.
    pub open spec fn selected_index(&self) -> Option<int> {
        match self.session.selected {
            Some(id) => if exists|i: int| 0 <= i < self.session.proposals@.len() && #[trigger] self.session.proposals@[i].id == id {
                Some(choose|i: int| 0 <= i < self.session.proposals@.len() && #[trigger] self.session.proposals@[i].id == id
                    && forall|j: int| 0 <= j < i ==> #[trigger] self.session.proposals@[j].id != id)
            } else {
                None
            },
            None => None,
        }
    }

    pub(crate) fn find_proposal(&self, id: usize) -> (r: Option<usize>)
        ensures
            r matches Some(i) ==> i < self.session.proposals@.len() && self.session.proposals@[i as int].id == id
                && forall|j: int| 0 <= j < i ==> #[trigger] self.session.proposals@[j].id != id,
            r is None ==> forall|j: int| 0 <= j < self.session.proposals@.len() ==> #[trigger] self.session.proposals@[j].id != id,
    {
        let mut i: usize = 0;
        while i < self.session.proposals.len()
            invariant
                i <= self.session.proposals@.len(),
                forall|j: int| 0 <= j < i ==> #[trigger] self.session.proposals@[j].id != id,
            decreases self.session.proposals@.len() - i,
        {
            if self.session.proposals[i].id == id {
                return Some(i);
            }
            i = i + 1;
        }
        None
    }

    /// The selected proposal.
    pub fn proposal(&self) -> (r: Option<&Proposal>)
        ensures
            match self.selected_index() {
                Some(i) => r == Some(&self.session.proposals@[i]),
                None => r is None,
            },
    {
        match self.session.selected {
            Some(id) => match self.find_proposal(id) {
                Some(i) => {
                    assert(exists|i: int| 0 <= i < self.session.proposals@.len() && #[trigger] self.session.proposals@[i].id == id);
                    let ghost k = self.selected_index().unwrap();
                    assert(k == i as int) by {
                        if k < i {
                        } else if k > i {
                        }
                    }
                    Some(&self.session.proposals[i])
                },
                None => None,
            },
            None => None,
        }
    }

    /// The active tour.
    pub fn tour(&self) -> (r: Option<&Tour>)
        ensures
            match self.active() {
                Some(t) => r matches Some(x) && x@ == t,
                None => r is None,
            },
    {
        match self.session.active_tour {
            Some(i) => if i < self.session.tours.len() {
                Some(&self.session.tours[i])
            } else {
                None
            },
            None => None,
        }
    }

    /// Whether the agent is refining a proposal.
    pub fn refining(&self) -> (r: bool)
        ensures
            r == (self.turn matches Some(t) && t.refinement),
    {
        match &self.turn {
            Some(t) => t.refinement,
            None => false,
        }
    }

    /// The editor is connected and has no unsaved buffers.
    pub open spec fn editor_saved(&self) -> bool {
        self.editor_connected != Some(false) && self.editor.dirty@.len() == 0
    }

    /// Refuses unless the editor is connected with every buffer saved.
    pub(crate) fn saved(&self) -> (r: Result<(), Refusal>)
        ensures
            r is Ok <==> self.editor_saved(),
            r matches Err(e) ==> if self.editor_connected == Some(false) {
                e is EditorDisconnected
            } else {
                e matches Refusal::UnsavedBuffers(d) && d@ == self.editor.dirty@
            },
    {
        if self.editor_connected == Some(false) {
            return Err(Refusal::EditorDisconnected);
        }
        if self.editor.dirty.len() != 0 {
            return Err(Refusal::UnsavedBuffers(self.editor.dirty.clone()));
        }
        Ok(())
    }
}

/// Where the editor should show stop `t.current_stop` of tour `t`: its file under the tour's
/// root, at its first line. Position 0, the overview, shows nothing.
pub open spec fn stop_location(w: Workspace, t: TourView) -> Option<(Seq<char>, usize)> {
    if 1 <= t.current_stop <= t.content.stops.len() {
        let s = t.content.stops[t.current_stop - 1];
        let root = if t.source == TourSource::Repository { w.real@ } else { w.shadow@ };
        Some((joined(root, s.file), s.line))
    } else {
        None
    }
}

/// A stop of a proposal's tour is shown in the shadow files, where the unapplied proposal
/// lives, at the stop's first line; only a repository tour is shown in the real files.
pub proof fn law_proposal_tours_show_the_shadow(w: Workspace, t: TourView)
    requires
        1 <= t.current_stop <= t.content.stops.len(),
    ensures
        t.source != TourSource::Repository ==> stop_location(w, t) == Some((
            joined(w.shadow@, t.content.stops[t.current_stop - 1].file), t.content.stops[t.current_stop - 1].line)),
        t.source == TourSource::Repository ==> stop_location(w, t) == Some((
            joined(w.real@, t.content.stops[t.current_stop - 1].file), t.content.stops[t.current_stop - 1].line)),
{
}

/// Tour `t` positioned at stop `stop`.
pub open spec fn at_stop(t: TourView, stop: usize) -> TourView {
    TourView { current_stop: stop, ..t }
}

pub open spec fn location_view(l: Option<Location>) -> Option<(Seq<char>, usize)> {
    match l {
        Some(l) => Some((l.file@, l.line)),
        None => None,
    }
}

/// The stop position after moving `offset` stops: saturating at zero, at most the number
/// of stops.
pub open spec fn moved(current: usize, offset: isize, stops: int) -> usize {
    let target = current + offset;
    let saturated = if target < 0 { 0 } else if target > usize::MAX { usize::MAX as int } else { target };
    (if saturated > stops { stops } else { saturated }) as usize
}

impl Controller {
    /// Adds a tour and makes it the active one.
    pub(crate) fn add_tour(&mut self, source: TourSource, content: TourDraft)
        requires
            old(self).session.tours@.len() < usize::MAX,
        ensures
            final(self).session.tours@ == old(self).session.tours@.push(Tour { id: (old(self).session.tours@.len() + 1) as usize, source, current_stop: 0, content }),
            final(self).session.active_tour == Some(old(self).session.tours@.len() as usize),
            final(self).workspace == old(self).workspace,
            final(self).editor == old(self).editor,
            final(self).generation == old(self).generation,
            final(self).busy == old(self).busy,
            final(self).turn == old(self).turn,
            final(self).navigation == old(self).navigation,
            final(self).editor_connected == old(self).editor_connected,
            final(self).session.stage == old(self).session.stage,
            final(self).session.proposals == old(self).session.proposals,
            final(self).session.selected == old(self).session.selected,
            final(self).session.baseline == old(self).session.baseline,
            final(self).session.applied == old(self).session.applied,
            final(self).session.pending_base == old(self).session.pending_base,
            final(self).session.pending_proposal == old(self).session.pending_proposal,
            final(self).session.drafts == old(self).session.drafts,
            final(self).session.change_index == old(self).session.change_index,
            final(self).session.human == old(self).session.human,
    {
        let id = self.session.tours.len() + 1;
        self.session.tours.push(Tour { id, source, current_stop: 0, content });
        self.session.active_tour = Some(id - 1);
    }

    /// Points the editor at the active tour's current stop.
    pub(crate) fn navigate_tour(&mut self)
        requires
            old(self).generation < u64::MAX,
        ensures
            location_view(final(self).navigation) == match old(self).active() {
                Some(t) => stop_location(old(self).workspace, t),
                None => None,
            },
            final(self).generation == old(self).generation + 1,
            final(self).session == old(self).session,
            final(self).workspace == old(self).workspace,
            final(self).editor == old(self).editor,
            final(self).busy == old(self).busy,
            final(self).turn == old(self).turn,
            final(self).editor_connected == old(self).editor_connected,
    {
        let mut navigation: Option<Location> = None;
        match self.tour() {
            Some(t) => {
                if t.current_stop >= 1 && t.current_stop <= t.content.stops.len() {
                    let s = &t.content.stops[t.current_stop - 1];
                    let root = if t.source == TourSource::Repository {
                        &self.workspace.real
                    } else {
                        &self.workspace.shadow
                    };
                    navigation = Some(Location { file: join_path(root, &s.file), line: s.line });
                }
            },
            None => {},
        }
        self.navigation = navigation;
        self.generation = self.generation + 1;
    }

    /// Puts the active tour, tour `i`, at stop `stop`, and points the editor there.
    fn place_active(&mut self, i: usize, stop: usize)
        requires
            old(self).wf(),
            old(self).generation < u64::MAX,
            old(self).session.active_tour == Some(i),
            stop <= tour_at(old(self).session, i as int).content.stops.len(),
        ensures
            final(self).wf(),
            final(self).session.tours@.len() == old(self).session.tours@.len(),
            forall|j: int| 0 <= j < old(self).session.tours@.len() && j != i ==> #[trigger] final(self).session.tours@[j] == old(self).session.tours@[j],
            tour_at(final(self).session, i as int) == at_stop(tour_at(old(self).session, i as int), stop),
            final(self).session.active_tour == old(self).session.active_tour,
            location_view(final(self).navigation) == stop_location(old(self).workspace, at_stop(tour_at(old(self).session, i as int), stop)),
            final(self).generation == old(self).generation + 1,
            final(self).session.stage == old(self).session.stage,
            final(self).session.proposals == old(self).session.proposals,
            final(self).session.selected == old(self).session.selected,
            final(self).session.pending_proposal == old(self).session.pending_proposal,
            final(self).busy == old(self).busy,
            final(self).turn == old(self).turn,
            final(self).workspace == old(self).workspace,
    {
        let mut tours: Vec<Tour> = Vec::new();
        std::mem::swap(&mut tours, &mut self.session.tours);
        let mut t = tours.remove(i);
        let ghost old_t = t@;
        t.current_stop = stop;
        assert(t@.content == old_t.content);
        tours.insert(i, t);
        self.session.tours = tours;
        proof {
            assert forall|j: int| 0 <= j < old(self).session.tours@.len() && j != i implies #[trigger] self.session.tours@[j] == old(self).session.tours@[j] by {
                if j < i {
                } else {
                }
            }
        }
        self.navigate_tour();
    }

    /// Moves the active tour `offset` stops, staying between the overview and the last stop.
    pub fn tour_move(&mut self, offset: isize) -> (r: Result<(), Refusal>)
        requires
            old(self).wf(),
            old(self).generation < u64::MAX,
        ensures
            final(self).wf(),
            r is Ok <==> old(self).session.active_tour is Some,
            r matches Err(e) ==> e is NoActiveTour && *final(self) == *old(self),
            r is Ok ==> {
                let i = old(self).session.active_tour.unwrap() as int;
                let t = tour_at(old(self).session, i);
                let n = moved(t.current_stop, offset, t.content.stops.len() as int);
                &&& final(self).session.tours@.len() == old(self).session.tours@.len()
                &&& forall|j: int| 0 <= j < old(self).session.tours@.len() && j != i ==> #[trigger] final(self).session.tours@[j] == old(self).session.tours@[j]
                &&& tour_at(final(self).session, i) == at_stop(t, n)
                &&& final(self).session.active_tour == old(self).session.active_tour
                &&& location_view(final(self).navigation) == stop_location(old(self).workspace, at_stop(t, n))
                &&& final(self).generation == old(self).generation + 1
                &&& final(self).session.stage == old(self).session.stage
                &&& final(self).busy == old(self).busy
            },
    {
        let i = match self.session.active_tour {
            Some(i) => i,
            None => {
                return Err(Refusal::NoActiveTour);
            },
        };
        let n = self.session.tours[i].content.stops.len();
        let current = self.session.tours[i].current_stop;
        let target: i128 = current as i128 + offset as i128;
        let saturated: usize = if target < 0 {
            0
        } else if target > usize::MAX as i128 {
            usize::MAX
        } else {
            target as usize
        };
        let stop = if saturated > n { n } else { saturated };
        self.place_active(i, stop);
        Ok(())
    }

    /// Moves the active tour to stop `index`, provided it is still tour `tour_id`.
    pub fn tour_jump(&mut self, tour_id: usize, index: usize) -> (r: Result<(), Refusal>)
        requires
            old(self).wf(),
            old(self).generation < u64::MAX,
        ensures
            final(self).wf(),
            match old(self).active() {
                None => r matches Err(e) && e is NoActiveTour,
                Some(t) => if t.id != tour_id {
                    r matches Err(e) && e is StaleTour
                } else if index > t.content.stops.len() {
                    r matches Err(e) && e is UnknownStop
                } else {
                    r is Ok
                },
            },
            r is Err ==> *final(self) == *old(self),
            r is Ok ==> {
                let i = old(self).session.active_tour.unwrap() as int;
                let t = tour_at(old(self).session, i);
                &&& final(self).session.tours@.len() == old(self).session.tours@.len()
                &&& forall|j: int| 0 <= j < old(self).session.tours@.len() && j != i ==> #[trigger] final(self).session.tours@[j] == old(self).session.tours@[j]
                &&& tour_at(final(self).session, i) == at_stop(t, index)
                &&& final(self).session.active_tour == old(self).session.active_tour
                &&& location_view(final(self).navigation) == stop_location(old(self).workspace, at_stop(t, index))
                &&& final(self).generation == old(self).generation + 1
            },
    {
        let (id, n) = match self.tour() {
            Some(t) => (t.id, t.content.stops.len()),
            None => {
                return Err(Refusal::NoActiveTour);
            },
        };
        if id != tour_id {
            return Err(Refusal::StaleTour);
        }
        if index > n {
            return Err(Refusal::UnknownStop);
        }
        let i = self.session.active_tour.unwrap();
        self.place_active(i, index);
        Ok(())
    }

    /// Ends a repository tour; proposal tours end by application.
    pub fn close_tour(&mut self) -> (r: Result<(), Refusal>)
        requires
            old(self).wf(),
            old(self).generation < u64::MAX,
        ensures
            final(self).wf(),
            r is Ok <==> (old(self).active() matches Some(t) && t.source == TourSource::Repository),
            r matches Err(e) ==> e is ProposalTourOpen && *final(self) == *old(self),
            r is Ok ==> {
                &&& final(self).session.active_tour is None
                &&& final(self).navigation is None
                &&& final(self).generation == old(self).generation + 1
                &&& final(self).session.tours == old(self).session.tours
                &&& final(self).session.stage == old(self).session.stage
                &&& final(self).busy == old(self).busy
            },
    {
        let repository = match self.tour() {
            Some(t) => t.source == TourSource::Repository,
            None => false,
        };
        if !repository {
            return Err(Refusal::ProposalTourOpen);
        }
        self.session.active_tour = None;
        self.navigation = None;
        self.generation = self.generation + 1;
        Ok(())
    }
}

/// The number of lines a file has for a reading range: its newline-separated pieces.
pub open spec fn line_count(b: Seq<u8>) -> int {
    newlines(b) + 1
}

/// A stop that reads an existing file of `files` within its lines.
pub open spec fn stop_fits(s: StopView, files: Files) -> bool {
    &&& is_valid_path(s.file)
    &&& files.dom().contains(s.file)
    &&& 0 < s.line <= s.end_line <= line_count(files[s.file].0)
}

/// How a tour check ends.
pub enum TourCheck {
    Valid,
    Untitled,
    UnsafePath(Seq<char>),
    UnknownFile,
    OutOfRange(Seq<char>, usize, usize),
    TooLarge,
}

/// The first problem with the stops from `i` on.
pub open spec fn stops_check(stops: Seq<StopView>, files: Files, i: int) -> TourCheck
    decreases stops.len() - i,
{
    if i >= stops.len() || i < 0 {
        if stops.len() > 200 { TourCheck::TooLarge } else { TourCheck::Valid }
    } else {
        let s = stops[i];
        if !is_valid_path(s.file) {
            TourCheck::UnsafePath(s.file)
        } else if !files.dom().contains(s.file) {
            TourCheck::UnknownFile
        } else if !(0 < s.line <= s.end_line <= line_count(files[s.file].0)) {
            TourCheck::OutOfRange(s.file, s.line, s.end_line)
        } else {
            stops_check(stops, files, i + 1)
        }
    }
}

/// The check of a tour against the files it reads: a title and overview, and stops that
/// each read existing lines of a safe path, at most 200 of them.
pub open spec fn tour_check(d: DraftView, files: Files) -> TourCheck {
    if is_blank(d.title) || is_blank(d.overview) {
        TourCheck::Untitled
    } else {
        stops_check(d.stops, files, 0)
    }
}

/// Whether a check result and a refusal agree.
pub open spec fn tour_result(c: TourCheck, r: Result<(), Refusal>) -> bool {
    match c {
        TourCheck::Valid => r is Ok,
        TourCheck::Untitled => r matches Err(e) && e is TourUntitled,
        TourCheck::UnsafePath(p) => r matches Err(Refusal::UnsafePath(q)) && q@ == p,
        TourCheck::UnknownFile => r matches Err(e) && e is UnknownTourFile,
        TourCheck::OutOfRange(p, a, b) => r matches Err(Refusal::RangeOutOfBounds(q, x, y)) && q@ == p && x == a && y == b,
        TourCheck::TooLarge => r matches Err(e) && e is TourTooLarge,
    }
}

proof fn lemma_valid_tour(stops: Seq<StopView>, files: Files, i: int)
    requires
        0 <= i <= stops.len(),
    ensures
        stops_check(stops, files, i) is Valid <==> (stops.len() <= 200 && forall|j: int| i <= j < stops.len() ==> stop_fits(#[trigger] stops[j], files)),
    decreases stops.len() - i,
{
    if i < stops.len() {
        lemma_valid_tour(stops, files, i + 1);
        if stops_check(stops, files, i) is Valid {
            assert forall|j: int| i <= j < stops.len() implies stop_fits(#[trigger] stops[j], files) by {
                if j > i {
                }
            }
        }
    }
}

/// Checks a tour against the files it reads.
pub fn validate_tour(tour: &TourDraft, result: &Snapshot) -> (r: Result<(), Refusal>)
    ensures
        tour_result(tour_check(tour@, result@), r),
        r is Ok <==> (!is_blank(tour@.title) && !is_blank(tour@.overview) && tour@.stops.len() <= 200
            && forall|j: int| 0 <= j < tour@.stops.len() ==> stop_fits(#[trigger] tour@.stops[j], result@)),
{
    proof {
        lemma_valid_tour(tour@.stops, result@, 0);
    }
    if blank(tour.title.as_str()) || blank(tour.overview.as_str()) {
        return Err(Refusal::TourUntitled);
    }
    let mut i: usize = 0;
    while i < tour.stops.len()
        invariant
            i <= tour.stops@.len(),
            !is_blank(tour@.title) && !is_blank(tour@.overview),
            tour_check(tour@, result@) == stops_check(tour@.stops, result@, i as int),
        decreases tour.stops@.len() - i,
    {
        let stop = &tour.stops[i];
        assert(tour@.stops[i as int] == stop@);
        if !valid_path(stop.file.as_str()) {
            return Err(Refusal::UnsafePath(stop.file.clone()));
        }
        let file = match result.get(stop.file.as_str()) {
            Some(f) => f,
            None => {
                return Err(Refusal::UnknownTourFile);
            },
        };
        let breaks = count_newlines(&file.bytes);
        if !(stop.line > 0 && stop.end_line >= stop.line && stop.end_line - 1 <= breaks) {
            return Err(Refusal::RangeOutOfBounds(stop.file.clone(), stop.line, stop.end_line));
        }
        i = i + 1;
    }
    if tour.stops.len() > 200 {
        return Err(Refusal::TourTooLarge);
    }
    Ok(())
}

} // verus!
