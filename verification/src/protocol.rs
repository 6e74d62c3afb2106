//! The controller's vocabulary: stages, tours, proposals, the editor's context, and the
//! requests, responses and events of the local protocol.
use vstd::prelude::*;
use vstd::view::View as Viewed;

verus! {

/// The protocol version this controller speaks.
pub const VERSION: u32 = 1;

/// The largest request frame, in bytes, newline included.
pub const MAX_FRAME: usize = 1048576;

/// Where the conversation stands.
#[derive(Clone, Copy, Debug, PartialEq, Eq, Structural)]
pub enum Stage {
    Discuss,
    Building,
    Tour,
    Applied,
}

/// What the editor reports: the file and cursor, the selection, nearby unsaved text, and
/// the paths of buffers with unsaved changes.
#[derive(Clone, Debug, Default)]
pub struct EditorContext {
    pub file: Option<String>,
    pub line: usize,
    pub column: usize,
    pub selection: String,
    pub selection_start_line: Option<usize>,
    pub selection_end_line: Option<usize>,
    pub nearby: String,
    pub dirty: Vec<String>,
}

/// One stop of a tour: an inclusive, 1-based range of lines in one file, and what to notice.
#[derive(Clone, Debug)]
pub struct TourStop {
    pub title: String,
    pub body: String,
    pub file: String,
    pub line: usize,
    /// Inclusive, 1-based end of the reading range.
    pub end_line: usize,
}

/// A tour as an agent proposes it.
#[derive(Clone, Debug)]
pub struct TourDraft {
    pub title: String,
    pub overview: String,
    pub stops: Vec<TourStop>,
}

/// What a tour explains: the repository, or one proposal.
#[derive(Clone, Copy, Debug, PartialEq, Eq, Structural)]
pub enum TourSource {
    Repository,
    Proposal(usize),
}

/// A tour with its identity and position; position 0 is the overview.
#[derive(Clone, Debug)]
pub struct Tour {
    pub id: usize,
    pub source: TourSource,
    pub current_stop: usize,
    pub content: TourDraft,
}

/// One reviewable change of a proposal.
#[derive(Clone, Debug)]
pub struct Change {
    pub id: usize,
    pub file: String,
    pub line: usize,
    pub label: String,
}

/// A proposal: the trees it starts from and results in.
#[derive(Clone, Debug)]
pub struct Proposal {
    pub id: usize,
    pub base: String,
    pub tree: String,
}

/// What the editor shows of the controller.
#[derive(Clone, Debug)]
pub struct View {
    pub stage: Stage,
    pub busy: bool,
    pub real: String,
    pub shadow: String,
    pub proposal: Option<usize>,
    pub proposals: Vec<usize>,
    pub tour: Option<Tour>,
    pub changes: Vec<Change>,
    pub change_index: usize,
    pub editor: EditorContext,
    pub navigation: Option<Location>,
    pub generation: u64,
}

/// A place for the editor to show.
#[derive(Clone, Debug)]
pub struct Location {
    pub file: String,
    pub line: usize,
}

/// What a client asks of the controller.
#[derive(Clone, Debug)]
pub enum Action {
    Status,
    Input { text: String },
    Message { text: String },
    Begin { text: String },
    Revise { feedback: String },
    Switch { proposal: usize },
    TourNext,
    TourPrevious,
    TourJump { index: usize },
    TourClose,
    Apply,
    NextChange,
    PreviousChange,
    Revert { change: usize },
    Diff,
    Peek,
    Context { context: EditorContext },
    EditorConnection { connected: bool },
    Cancel,
    Shutdown,
}

/// A versioned request with a client-chosen id.
#[derive(Clone, Debug)]
pub struct Request {
    pub version: u32,
    pub id: u64,
    pub action: Action,
}

/// Saved old and current contents of one file, positioned at one changed block.
#[derive(Clone, Debug)]
pub struct Comparison {
    pub file: String,
    pub current_file: String,
    pub old: Option<String>,
    pub current: Option<String>,
    pub old_line: usize,
    pub current_line: usize,
}

/// What a response carries besides the view.
#[derive(Clone, Debug, Default)]
pub struct Payload {
    pub text: Option<String>,
    pub comparison: Option<Comparison>,
}

/// The answer to one request.
#[derive(Clone, Debug)]
pub struct Response {
    pub version: u32,
    pub id: u64,
    pub view: Option<View>,
    pub error: Option<String>,
    pub reply: Payload,
}

/// What every connected client is told.
#[derive(Clone, Debug)]
pub enum Event {
    History { lines: Vec<String> },
    State { view: Box<View> },
    Message { text: String },
    Activity { text: String },
    Error { text: String },
}

/// A tour stop, as values.
pub struct StopView {
    pub title: Seq<char>,
    pub body: Seq<char>,
    pub file: Seq<char>,
    pub line: usize,
    pub end_line: usize,
}

impl Viewed for TourStop {
    type V = StopView;

    open spec fn view(&self) -> StopView {
        StopView { title: self.title@, body: self.body@, file: self.file@, line: self.line, end_line: self.end_line }
    }
}

/// The stops, as values.
pub open spec fn stop_views(s: Seq<TourStop>) -> Seq<StopView> {
    s.map_values(|x: TourStop| x@)
}

/// A tour draft, as values.
pub struct DraftView {
    pub title: Seq<char>,
    pub overview: Seq<char>,
    pub stops: Seq<StopView>,
}

impl Viewed for TourDraft {
    type V = DraftView;

    open spec fn view(&self) -> DraftView {
        DraftView { title: self.title@, overview: self.overview@, stops: stop_views(self.stops@) }
    }
}

/// A tour, as values.
pub struct TourView {
    pub id: usize,
    pub source: TourSource,
    pub current_stop: usize,
    pub content: DraftView,
}

impl Viewed for Tour {
    type V = TourView;

    open spec fn view(&self) -> TourView {
        TourView { id: self.id, source: self.source, current_stop: self.current_stop, content: self.content@ }
    }
}

impl TourStop {
    pub fn copy(&self) -> (r: TourStop)
        ensures
            r@ == self@,
    {
        TourStop {
            title: self.title.clone(),
            body: self.body.clone(),
            file: self.file.clone(),
            line: self.line,
            end_line: self.end_line,
        }
    }
}

impl TourDraft {
    pub fn copy(&self) -> (r: TourDraft)
        ensures
            r@ == self@,
    {
        let mut stops: Vec<TourStop> = Vec::new();
        let mut i: usize = 0;
        while i < self.stops.len()
            invariant
                i <= self.stops@.len(),
                stops@.len() == i,
                forall|j: int| 0 <= j < i ==> (#[trigger] stops@[j])@ == self.stops@[j]@,
            decreases self.stops@.len() - i,
        {
            stops.push(self.stops[i].copy());
            i = i + 1;
        }
        assert(stop_views(stops@) =~= stop_views(self.stops@));
        TourDraft { title: self.title.clone(), overview: self.overview.clone(), stops }
    }
}

impl Tour {
    pub fn copy(&self) -> (r: Tour)
        ensures
            r@ == self@,
    {
        Tour { id: self.id, source: self.source, current_stop: self.current_stop, content: self.content.copy() }
    }
}

impl Location {
    pub fn copy(&self) -> (r: Location)
        ensures
            r.file@ == self.file@,
            r.line == self.line,
    {
        Location { file: self.file.clone(), line: self.line }
    }
}

impl Proposal {
    pub fn copy(&self) -> (r: Proposal)
        ensures
            r.id == self.id,
            r.base@ == self.base@,
            r.tree@ == self.tree@,
    {
        Proposal { id: self.id, base: self.base.clone(), tree: self.tree.clone() }
    }
}

pub open spec fn opt_string(o: Option<String>) -> Option<Seq<char>> {
    match o {
        Some(s) => Some(s@),
        None => None,
    }
}

impl EditorContext {
    /// The editor's context with the same values.
    pub open spec fn same_as(&self, other: &EditorContext) -> bool {
        &&& opt_string(self.file) == opt_string(other.file)
        &&& self.line == other.line
        &&& self.column == other.column
        &&& self.selection@ == other.selection@
        &&& self.selection_start_line == other.selection_start_line
        &&& self.selection_end_line == other.selection_end_line
        &&& self.nearby@ == other.nearby@
        &&& self.dirty@.map_values(|d: String| d@) == other.dirty@.map_values(|d: String| d@)
    }

    pub fn copy(&self) -> (r: EditorContext)
        ensures
            r.same_as(self),
    {
        let file = match &self.file {
            Some(f) => Some(f.clone()),
            None => None,
        };
        let dirty = self.dirty.clone();
        assert(dirty@ == self.dirty@);
        EditorContext {
            file,
            line: self.line,
            column: self.column,
            selection: self.selection.clone(),
            selection_start_line: self.selection_start_line,
            selection_end_line: self.selection_end_line,
            nearby: self.nearby.clone(),
            dirty,
        }
    }
}

} // verus!
