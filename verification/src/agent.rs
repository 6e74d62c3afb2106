//! What the controller grants an agent per turn, what an agent reports back, and the
//! labeled offline demonstration agent.
use vstd::prelude::*;
use vstd::view::View as Viewed;
use crate::protocol::{TourDraft, TourStop, DraftView, StopView, stop_views};
use crate::text::{lowercase, lowered, has_text, contains_text, decimal, decimal_text, concat};
use crate::workspace::{join_path, joined};

verus! {

/// The source-write capability of one agent turn.
#[derive(Clone, Copy, Debug, PartialEq, Eq, Structural)]
pub enum WorkspaceMode {
    ReadOnly,
    Build,
    Refine,
}

/// One agent turn: the request, its context, the capability, and the shadow tree it runs in.
#[derive(Clone, Debug)]
pub struct Turn {
    pub prompt: String,
    pub context: String,
    pub mode: WorkspaceMode,
    pub workspace: String,
}

/// What an agent reports during a turn.
#[derive(Debug)]
pub enum AgentEvent {
    Message(String),
    Activity(String),
    TourNavigate { tour_id: usize, index: usize },
    Complete(Option<TourDraft>),
    Failed(String),
}

/// A deliberately labeled offline demonstration, never selected implicitly.
#[derive(Debug)]
pub struct MockBackend {
    builds: usize,
}

/// What the demonstration agent does for a turn.
#[derive(Debug)]
pub enum MockStep {
    /// Create this file, which must not exist yet, with this text.
    Create(String, String),
    /// Append this text to this file.
    Append(String, String),
    /// Give a repository tour of the first listed file.
    Tour,
    /// Answer with this message.
    Say(String),
}

/// The demonstration file's name.
pub open spec fn example_name() -> Seq<char> {
    "tandem-example.txt"@
}

/// Whether the demonstration agent changes code in a turn: always when building, and when
/// refining on a request that mentions a change.
pub open spec fn mock_builds(mode: WorkspaceMode, prompt: Seq<char>) -> bool {
    mode == WorkspaceMode::Build || (mode == WorkspaceMode::Refine && contains_text(lowered(prompt), "change"@))
}

/// The tour of demonstration proposal number `n`.
pub open spec fn offline_tour(n: usize) -> DraftView {
    DraftView {
        title: "Offline proposal "@ + decimal_text(n as nat),
        overview: "This offline demo creates or extends one file. The real working tree is unchanged until /apply."@,
        stops: seq![StopView {
            title: "The proposed file"@,
            body: "This file exists in the shadow workspace. /apply will apply it as an ordinary uncommitted file."@,
            file: example_name(),
            line: 1,
            end_line: 1,
        }],
    }
}

impl MockBackend {
    /// A demonstration agent that has built nothing yet.
    pub fn new() -> (r: MockBackend)
        ensures
            r.builds() == 0,
    {
        MockBackend { builds: 0 }
    }

    /// How many demonstration proposals it has built.
    pub closed spec fn builds(&self) -> usize {
        self.builds
    }

    /// How many demonstration proposals it has built.
    pub fn build_count(&self) -> (r: usize)
        ensures
            r == self.builds(),
    {
        self.builds
    }

    /// What the demonstration agent does for `turn`.
    pub fn plan(&self, turn: &Turn) -> (r: MockStep)
        ensures
            mock_builds(turn.mode, turn.prompt@) ==> if self.builds() == 0 {
                (r matches MockStep::Create(p, t) && p@ == joined(turn.workspace@, example_name())
                    && t@ == "A proposal created in Tandem's shadow workspace.\n"@)
            } else {
                self.builds() < usize::MAX ==> (r matches MockStep::Append(p, t) && p@ == joined(turn.workspace@, example_name())
                    && t@ == "Offline revision "@ + decimal_text(self.builds() as nat + 1) + ".\n"@)
            },
            !mock_builds(turn.mode, turn.prompt@) && contains_text(lowered(turn.prompt@), "tour"@) ==> r is Tour,
            !mock_builds(turn.mode, turn.prompt@) && !contains_text(lowered(turn.prompt@), "tour"@) ==> (r matches MockStep::Say(m)
                && m@ == "[offline mock] "@ + turn.prompt@ + "\nDiscuss the change, then use /begin to create a demo proposal."@),
    {
        let lower = lowercase(turn.prompt.as_str());
        let build = turn.mode == WorkspaceMode::Build || (turn.mode == WorkspaceMode::Refine && has_text(lower.as_str(), "change"));
        if build {
            let path = join_path(&turn.workspace, &String::from_str("tandem-example.txt"));
            if self.builds == 0 {
                MockStep::Create(path, String::from_str("A proposal created in Tandem's shadow workspace.\n"))
            } else {
                let n = if self.builds < usize::MAX { self.builds + 1 } else { self.builds };
                let text = concat(concat("Offline revision ", decimal(n).as_str()).as_str(), ".\n");
                MockStep::Append(path, text)
            }
        } else if has_text(lower.as_str(), "tour") {
            MockStep::Tour
        } else {
            let m = concat(concat("[offline mock] ", turn.prompt.as_str()).as_str(),
                "\nDiscuss the change, then use /begin to create a demo proposal.");
            MockStep::Say(m)
        }
    }

    /// Records a finished demonstration build, and gives the tour of its proposal.
    pub fn built(&mut self) -> (r: TourDraft)
        requires
            old(self).builds() < usize::MAX,
        ensures
            final(self).builds() == old(self).builds() + 1,
            r@ == offline_tour(final(self).builds()),
    {
        self.builds = self.builds + 1;
        let stop = TourStop {
            title: String::from_str("The proposed file"),
            body: String::from_str("This file exists in the shadow workspace. /apply will apply it as an ordinary uncommitted file."),
            file: String::from_str("tandem-example.txt"),
            line: 1,
            end_line: 1,
        };
        let mut stops: Vec<TourStop> = Vec::new();
        stops.push(stop);
        let r = TourDraft {
            title: concat("Offline proposal ", decimal(self.builds).as_str()),
            overview: String::from_str("This offline demo creates or extends one file. The real working tree is unchanged until /apply."),
            stops,
        };
        assert(stop_views(r.stops@) =~= offline_tour(self.builds).stops);
        r
    }
}

/// The first path that does not start with a dot.
pub open spec fn first_visible(paths: Seq<Seq<char>>) -> Option<Seq<char>>
    decreases paths.len(),
{
    if paths.len() == 0 {
        None
    } else if paths[0].len() > 0 && paths[0][0] == '.' {
        first_visible(paths.drop_first())
    } else {
        Some(paths[0])
    }
}

/// The offline repository tour of `file`: two stops at its first line.
pub open spec fn offline_repository_tour(file: Seq<char>) -> DraftView {
    let first = StopView {
        title: "Explore existing code"@,
        body: "Offline demonstration: this stop points into an existing repository file. Codex supplies the conceptual narrative in live sessions."@,
        file,
        line: 1,
        end_line: 1,
    };
    DraftView {
        title: "Repository tour (offline demo)"@,
        overview: "A read-only tour, independent of any proposal."@,
        stops: seq![first, StopView {
            title: "Return to the same location"@,
            body: "A later stop can continue the explanation at the same location."@,
            ..first
        }],
    }
}

/// The demonstration repository tour of the first listed path that does not start with a
/// dot, in the order given; none without such a path.
pub fn repository_tour(paths: &Vec<String>) -> (r: Option<TourDraft>)
    ensures
        match first_visible(paths@.map_values(|p: String| p@)) {
            Some(f) => r matches Some(t) && t@ == offline_repository_tour(f),
            None => r is None,
        },
{
    let ghost all = paths@.map_values(|p: String| p@);
    let mut i: usize = 0;
    assert(all.skip(0) =~= all);
    while i < paths.len()
        invariant
            i <= paths@.len(),
            all == paths@.map_values(|p: String| p@),
            first_visible(all) == first_visible(all.skip(i as int)),
        decreases paths.len() - i,
    {
        assert(all.skip(i as int)[0] == paths@[i as int]@);
        assert(all.skip(i as int).drop_first() =~= all.skip(i + 1));
        let p = &paths[i];
        let cs = crate::text::chars_of(p.as_str());
        let dotted = cs.len() > 0 && cs[0] == '.';
        if !dotted {
            let first = TourStop {
                title: String::from_str("Explore existing code"),
                body: String::from_str("Offline demonstration: this stop points into an existing repository file. Codex supplies the conceptual narrative in live sessions."),
                file: p.clone(),
                line: 1,
                end_line: 1,
            };
            let second = TourStop {
                title: String::from_str("Return to the same location"),
                body: String::from_str("A later stop can continue the explanation at the same location."),
                file: p.clone(),
                line: 1,
                end_line: 1,
            };
            let mut stops: Vec<TourStop> = Vec::new();
            stops.push(first);
            stops.push(second);
            let t = TourDraft {
                title: String::from_str("Repository tour (offline demo)"),
                overview: String::from_str("A read-only tour, independent of any proposal."),
                stops,
            };
            assert(stop_views(t.stops@) =~= offline_repository_tour(p@).stops);
            return Some(t);
        }
        i = i + 1;
    }
    None
}

/// Whether an agent's answer may ask to move through the active tour: only without a new
/// tour, and never while building.
pub fn navigation_allowed(mode: WorkspaceMode, navigates: bool, has_tour: bool) -> (r: bool)
    ensures
        r == (!navigates || (mode != WorkspaceMode::Build && !has_tour)),
{
    !navigates || (mode != WorkspaceMode::Build && !has_tour)
}

/// The user settings an agent runtime inherits: model and provider choices and how
/// credentials are stored, never tools, plugins or hooks that could act outside the
/// sandbox.
pub open spec fn inherited(key: Seq<char>) -> bool {
    key == "model"@ || key == "model_provider"@ || key == "model_providers"@ || key == "model_reasoning_effort"@
        || key == "service_tier"@ || key == "cli_auth_credentials_store"@
}

/// Whether the agent runtime inherits the user's setting `key`.
pub fn inherits_setting(key: &str) -> (r: bool)
    ensures
        r == inherited(key@),
{
    let names = ["model", "model_provider", "model_providers", "model_reasoning_effort", "service_tier", "cli_auth_credentials_store"];
    let mut i: usize = 0;
    while i < names.len()
        invariant
            i <= names@.len(),
            names@ == seq!["model", "model_provider", "model_providers", "model_reasoning_effort", "service_tier", "cli_auth_credentials_store"],
            forall|j: int| 0 <= j < i ==> key@ != names@[j]@,
        decreases names.len() - i,
    {
        if crate::text::same_text(key, names[i]) {
            return true;
        }
        i = i + 1;
    }
    false
}

} // verus!
