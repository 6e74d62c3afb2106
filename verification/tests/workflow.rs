use tandem::controller::Controller;
use tandem::error::{Fault, Refusal};
use tandem::protocol::{Action, Stage, TourDraft, TourSource, TourStop};
use tandem::agent::WorkspaceMode;
use tandem::snapshot::{File, Snapshot};
use tandem::workspace::Workspace;
use tandem::world::{Captured, DiffText, Effect, Need, Place, Stored, TextMerge, World};

// An in-memory repository: stored trees, the real and shadow files, and line-based
// answers to the text merges and diffs that the controller asks for.
struct Sim {
    trees: Vec<(String, Snapshot)>,
    real: Snapshot,
    shadow: Snapshot,
}

fn lines(b: &[u8]) -> Vec<Vec<u8>> {
    b.split_inclusive(|x| *x == b'\n').map(|l| l.to_vec()).collect()
}

// Pairs of matching line indices, in order, from a longest common subsequence.
fn matching(a: &[Vec<u8>], b: &[Vec<u8>]) -> Vec<(usize, usize)> {
    let (n, m) = (a.len(), b.len());
    let mut t = vec![vec![0usize; m + 1]; n + 1];
    for i in (0..n).rev() {
        for j in (0..m).rev() {
            t[i][j] = if a[i] == b[j] { t[i + 1][j + 1] + 1 } else { t[i + 1][j].max(t[i][j + 1]) };
        }
    }
    let (mut i, mut j, mut out) = (0, 0, vec![]);
    while i < n && j < m {
        if a[i] == b[j] {
            out.push((i, j));
            i += 1;
            j += 1;
        } else if t[i + 1][j] >= t[i][j + 1] {
            i += 1;
        } else {
            j += 1;
        }
    }
    out
}

// Changed blocks: (old start, old count, new start, new count), 0-based.
fn blocks(a: &[Vec<u8>], b: &[Vec<u8>]) -> Vec<(usize, usize, usize, usize)> {
    let mut out = vec![];
    let (mut i, mut j) = (0, 0);
    let mut pairs = matching(a, b);
    pairs.push((a.len(), b.len()));
    for (x, y) in pairs {
        if x > i || y > j {
            out.push((i, x - i, j, y - j));
        }
        i = x + 1;
        j = y + 1;
    }
    out
}

fn range(start: usize, count: usize) -> String {
    let shown = if count == 0 { start } else { start + 1 };
    if count == 1 { format!("{shown}") } else { format!("{shown},{count}") }
}

fn unified(old: &[u8], new: &[u8], context: usize) -> String {
    let (a, b) = (lines(old), lines(new));
    let mut groups: Vec<(usize, usize, usize, usize)> = vec![];
    for (os, oc, ns, nc) in blocks(&a, &b) {
        let lo = os.saturating_sub(context);
        let nlo = ns - (os - lo);
        let hi = (os + oc + context).min(a.len());
        let nhi = ns + nc + (hi - (os + oc));
        if let Some(last) = groups.last_mut() {
            if lo <= last.0 + last.1 {
                *last = (last.0, hi - last.0, last.2, nhi - last.2);
                continue;
            }
        }
        groups.push((lo, hi - lo, nlo, nhi - nlo));
    }
    let mut out = String::new();
    for (os, oc, ns, nc) in groups {
        out.push_str(&format!("@@ -{} +{} @@\n", range(os, oc), range(ns, nc)));
    }
    out
}

// A three-way line merge: both sides' changed blocks of the base apply where they do not
// overlap; overlapping different changes conflict.
fn merge_text(base: &[u8], current: &[u8], desired: &[u8]) -> Option<Vec<u8>> {
    if current == base {
        return Some(desired.to_vec());
    }
    if desired == base || current == desired {
        return Some(current.to_vec());
    }
    let (o, c, d) = (lines(base), lines(current), lines(desired));
    let mut changes: Vec<(usize, usize, Vec<Vec<u8>>)> = vec![];
    for (os, oc, ns, nc) in blocks(&o, &c) {
        changes.push((os, oc, c[ns..ns + nc].to_vec()));
    }
    for (os, oc, ns, nc) in blocks(&o, &d) {
        let repl = d[ns..ns + nc].to_vec();
        if changes.iter().any(|x| x.0 == os && x.1 == oc && x.2 == repl) {
            continue;
        }
        if changes.iter().any(|x| os < x.0 + x.1.max(1) && x.0 < os + oc.max(1) || x.0 == os) {
            return None;
        }
        changes.push((os, oc, repl));
    }
    changes.sort_by_key(|x| x.0);
    let mut out = vec![];
    let mut i = 0;
    for (os, oc, repl) in changes {
        for l in &o[i..os] {
            out.extend_from_slice(l);
        }
        for l in repl {
            out.extend_from_slice(&l);
        }
        i = os + oc;
    }
    for l in &o[i..] {
        out.extend_from_slice(l);
    }
    Some(out)
}

fn text_file(s: &str) -> File {
    File { bytes: s.as_bytes().to_vec(), executable: false }
}

fn text(s: &Snapshot, path: &str) -> String {
    String::from_utf8(s.get(path).unwrap().bytes.clone()).unwrap()
}

impl Sim {
    fn id(&mut self, s: &Snapshot) -> String {
        for (id, files) in &self.trees {
            if files.same(s) {
                return id.clone();
            }
        }
        let id = format!("{:040x}", self.trees.len() + 1);
        self.trees.push((id.clone(), s.copy()));
        id
    }
    fn files(&self, t: &str) -> Snapshot {
        self.trees.iter().find(|(id, _)| id == t).unwrap().1.copy()
    }
    fn answer(&mut self, w: &mut World, need: Need) {
        match need {
            Need::Load(t) => {
                let files = self.files(&t);
                w.trees.push(Stored { tree: t, files });
            }
            Need::Store(s) => {
                let id = self.id(&s);
                w.trees.push(Stored { tree: id, files: s });
            }
            Need::Capture(place, known, epoch) => {
                assert_eq!(epoch, w.done.len());
                let files = match place {
                    Place::Real => self.real.copy(),
                    Place::Shadow => self.shadow.copy(),
                };
                w.captures.push(Captured { place, known, epoch, files });
            }
            Need::TextMerge(base, current, desired) => {
                let merged = merge_text(&base, &current, &desired);
                w.merges.push(TextMerge { base, current, desired, merged });
            }
            Need::Diff(base, tree, file, context) => {
                let (b, r) = (self.files(&base), self.files(&tree));
                let paths = match &file {
                    Some(f) => vec![f.clone()],
                    None => {
                        let mut all = b.copy();
                        all.extend(&r);
                        all.paths()
                    }
                };
                let mut text = String::new();
                for p in paths {
                    let old = b.get(&p).map(|f| f.bytes.clone()).unwrap_or_default();
                    let new = r.get(&p).map(|f| f.bytes.clone()).unwrap_or_default();
                    if old != new {
                        if file.is_none() {
                            text.push_str(&format!("diff --git a/{p} b/{p}\n"));
                        }
                        text.push_str(&unified(&old, &new, context));
                    }
                }
                w.diffs.push(DiffText { base, tree, file, context, text });
            }
            Need::Perform(k, effect) => {
                assert_eq!(k, w.done.len());
                match &effect {
                    Effect::Sync(s) => self.shadow = s.copy(),
                    Effect::Replace(current, desired) => {
                        for p in current.paths().into_iter().chain(desired.paths()) {
                            let (c, d) = (current.get(&p), desired.get(&p));
                            let same = match (c, d) {
                                (Some(x), Some(y)) => x.same(y),
                                (None, None) => true,
                                _ => false,
                            };
                            if !same {
                                match d {
                                    Some(f) => self.real.insert(p.clone(), f.copy()),
                                    None => self.real.remove(&p),
                                }
                            }
                        }
                    }
                }
                w.done.push(effect);
            }
        }
    }
    fn run<T>(&mut self, c: &mut Controller, mut op: impl FnMut(&mut Controller, &World) -> Result<T, Fault>) -> Result<T, Refusal> {
        let mut w = World::new();
        loop {
            match op(c, &w) {
                Ok(v) => return Ok(v),
                Err(Fault::Refused(r)) => return Err(r),
                Err(Fault::Need(n)) => self.answer(&mut w, n),
            }
        }
    }
    fn write_shadow(&mut self, path: &str, content: &str) {
        self.shadow.insert(path.to_string(), text_file(content));
    }
}

fn fixture() -> (Sim, Controller) {
    let mut real = Snapshot::new();
    real.insert("app.txt".to_string(), text_file("ttl = 10\n\nalpha\nbeta\ngamma\ndelta\n\nfooter\n"));
    real.insert("other.txt".to_string(), text_file("original\n"));
    let mut sim = Sim { trees: vec![], shadow: real.copy(), real };
    let start = sim.real.copy();
    let baseline = sim.id(&start);
    let ws = Workspace {
        real: "/work/repo".to_string(),
        shadow: "/work/session/worktree".to_string(),
        storage: "/work/session/objects".to_string(),
    };
    let c = Controller::create(ws, baseline);
    (sim, c)
}

fn tour(file: &str) -> TourDraft {
    TourDraft {
        title: "Proposal".into(),
        overview: "Explain a complete change".into(),
        stops: vec![
            TourStop { title: "First".into(), body: "A concept".into(), file: file.into(), line: 1, end_line: 1 },
            TourStop { title: "Return".into(), body: "The next concept".into(), file: file.into(), line: 1, end_line: 1 },
        ],
    }
}

fn build(sim: &mut Sim, c: &mut Controller, file: &str, content: &str) {
    sim.run(c, |c, w| c.begin(w)).unwrap();
    sim.write_shadow(file, content);
    sim.run(c, |c, w| c.complete(w, tour(file))).unwrap();
}

#[test]
fn build_clarification_restores_the_repository_tour_without_a_proposal() {
    let (mut sim, mut c) = fixture();
    sim.run(&mut c, |c, w| c.present_tour(w, tour("app.txt"))).unwrap();
    c.tour_move(1).unwrap();
    let before = c.tour().unwrap().copy();
    let files = sim.run(&mut c, |c, w| c.current(w)).unwrap();
    sim.run(&mut c, |c, w| c.begin(w)).unwrap();
    sim.run(&mut c, |c, w| c.finish_build(w, None)).unwrap();
    assert!(!c.busy);
    assert_eq!(c.session.stage, Stage::Discuss);
    assert_eq!(c.tour().unwrap().id, before.id);
    assert_eq!(c.tour().unwrap().current_stop, before.current_stop);
    assert!(c.proposal().is_none());
    assert!(sim.run(&mut c, |c, w| c.current(w)).unwrap().same(&files));
}

#[test]
fn changed_build_still_requires_a_proposal_tour() {
    let (mut sim, mut c) = fixture();
    let before = sim.run(&mut c, |c, w| c.current(w)).unwrap();
    sim.run(&mut c, |c, w| c.begin(w)).unwrap();
    sim.write_shadow("app.txt", "changed\n");
    assert!(matches!(sim.run(&mut c, |c, w| c.finish_build(w, None)), Err(Refusal::UntouredChange)));
    sim.run(&mut c, |c, w| c.failed(w)).unwrap();
    assert!(sim.run(&mut c, |c, w| c.current(w)).unwrap().same(&before));
    assert_eq!(text(&sim.shadow, "app.txt"), text(&sim.real, "app.txt"));
    assert!(c.proposal().is_none());
}

#[test]
fn tour_reading_ranges_are_explicit_inclusive_and_validated() {
    let (mut sim, mut c) = fixture();
    let mut draft = tour("app.txt");
    draft.stops[0].line = 1;
    draft.stops[0].end_line = 2;
    sim.run(&mut c, |c, w| c.repository_tour(w, draft.copy())).unwrap();
    let view = sim.run(&mut c, |c, w| c.view(w)).unwrap();
    assert_eq!(view.tour.unwrap().content.stops[0].end_line, 2);
    draft.stops[0].line = 2;
    draft.stops[0].end_line = 1;
    assert!(sim.run(&mut c, |c, w| c.repository_tour(w, draft.copy())).is_err());
    draft.stops[0].end_line = usize::MAX;
    assert!(sim.run(&mut c, |c, w| c.repository_tour(w, draft.copy())).is_err());
}

#[test]
fn stages_versions_tour_and_uncommitted_apply() {
    let (mut sim, mut c) = fixture();
    sim.run(&mut c, |c, w| c.begin(w)).unwrap();
    assert!(c.busy);
    sim.run(&mut c, |c, w| c.failed(w)).unwrap();
    assert_eq!(c.session.stage, Stage::Discuss);
    assert!(sim.run(&mut c, |c, w| c.apply(w)).is_err());
    build(&mut sim, &mut c, "other.txt", "proposal one\n");
    assert_eq!(text(&sim.real, "other.txt"), "original\n");
    assert_eq!(c.session.stage, Stage::Tour);
    c.tour_move(1).unwrap();
    c.tour_move(1).unwrap();
    assert_eq!(c.tour().unwrap().current_stop, 2);
    c.tour_move(-1).unwrap();
    assert_eq!(c.tour().unwrap().current_stop, 1);
    sim.run(&mut c, |c, w| c.apply(w)).unwrap();
    assert_eq!(text(&sim.real, "other.txt"), "proposal one\n");
    build(&mut sim, &mut c, "other.txt", "proposal two\n");
    sim.run(&mut c, |c, w| c.apply(w)).unwrap();
    sim.run(&mut c, |c, w| c.switch(w, 1)).unwrap();
    assert_eq!(text(&sim.real, "other.txt"), "proposal two\n");
    sim.run(&mut c, |c, w| c.apply(w)).unwrap();
    assert_eq!(text(&sim.real, "other.txt"), "proposal one\n");
}

#[test]
fn tour_refinement_and_navigation_preserve_source_and_reject_stale_positions() {
    let (mut sim, mut c) = fixture();
    sim.run(&mut c, |c, w| c.present_tour(w, tour("app.txt"))).unwrap();
    let first = c.tour().unwrap().id;
    c.tour_jump(first, 2).unwrap();
    c.tour_jump(first, 0).unwrap();
    assert_eq!(c.tour().unwrap().current_stop, 0);
    assert!(c.tour_jump(first, usize::MAX).is_err());
    sim.run(&mut c, |c, w| c.present_tour(w, tour("other.txt"))).unwrap();
    assert!(c.tour_jump(first, 1).is_err());
    assert_eq!(c.session.stage, Stage::Discuss);
    c.close_tour().unwrap();
    assert!(c.tour_jump(first, 1).is_err());

    build(&mut sim, &mut c, "new.txt", "only in the proposal\n");
    sim.run(&mut c, |c, w| c.present_tour(w, tour("new.txt"))).unwrap();
    assert_eq!(c.tour().unwrap().source, TourSource::Proposal(1));
    assert_eq!(c.session.proposals.len(), 1);
    assert_eq!(c.session.stage, Stage::Tour);
    assert!(sim.real.get("new.txt").is_none());
    sim.run(&mut c, |c, w| c.apply(w)).unwrap();
    assert_eq!(text(&sim.real, "new.txt"), "only in the proposal\n");
}

#[test]
fn individual_hunks_can_be_reverted_in_any_order() {
    let (mut sim, mut c) = fixture();
    let original = text(&sim.real, "app.txt");
    build(&mut sim, &mut c, "app.txt", &original.replace("10", "5").replace("footer", "agent footer"));
    sim.run(&mut c, |c, w| c.apply(w)).unwrap();
    assert_eq!(sim.run(&mut c, |c, w| c.changes(w)).unwrap().len(), 2);
    sim.run(&mut c, |c, w| c.revert(w, 1)).unwrap();
    assert_eq!(text(&sim.real, "app.txt"), original.replace("10", "5"));
    sim.run(&mut c, |c, w| c.revert(w, 0)).unwrap();
    assert_eq!(text(&sim.real, "app.txt"), original);
}

#[test]
fn unsaved_editor_buffers_gate_writes_and_context_is_serializable() {
    let (mut sim, mut c) = fixture();
    c.editor.dirty.push("app.txt".into());
    assert!(sim.run(&mut c, |c, w| c.begin(w)).is_err());
}

#[test]
fn repository_tour_is_independent_of_proposals_and_discussion_stage() {
    let (mut sim, mut c) = fixture();
    let before = sim.real.copy();
    sim.run(&mut c, |c, w| c.repository_tour(w, tour("app.txt"))).unwrap();
    assert_eq!(c.session.stage, Stage::Discuss);
    assert!(c.proposal().is_none());
    assert_eq!(c.tour().unwrap().source, TourSource::Repository);
    c.tour_move(2).unwrap();
    assert!(c.navigation.as_ref().unwrap().file.starts_with(c.workspace.real.as_str()));
    assert_eq!(c.tour().unwrap().current_stop, 2);
    c.close_tour().unwrap();
    assert!(c.tour().is_none());
    assert_eq!(c.session.stage, Stage::Discuss);
    assert!(before.same(&sim.real));
}


fn write_real(sim: &mut Sim, path: &str, content: &str) {
    sim.real.insert(path.to_string(), text_file(content));
}

#[test]
fn proposal_on_dirty_file_reverts_to_dirty_baseline() {
    let (mut sim, mut c) = fixture();
    write_real(&mut sim, "other.txt", "human baseline\n");
    build(&mut sim, &mut c, "other.txt", "human baseline\nagent addition\n");
    sim.run(&mut c, |c, w| c.apply(w)).unwrap();
    sim.run(&mut c, |c, w| c.revert(w, 0)).unwrap();
    assert_eq!(text(&sim.real, "other.txt"), "human baseline\n");
}

#[test]
fn manual_edits_survive_revision_and_overlap_is_conflict() {
    let (mut sim, mut c) = fixture();
    let original = text(&sim.real, "app.txt");
    build(&mut sim, &mut c, "app.txt", &original.replace("10", "5"));
    sim.run(&mut c, |c, w| c.apply(w)).unwrap();
    write_real(&mut sim, "app.txt", &original.replace("10", "2"));
    sim.run(&mut c, |c, w| c.begin(w)).unwrap();
    assert!(text(&sim.shadow, "app.txt").contains("ttl = 2"));
    sim.write_shadow("other.txt", "revision\n");
    sim.run(&mut c, |c, w| c.complete(w, tour("other.txt"))).unwrap();
    sim.run(&mut c, |c, w| c.apply(w)).unwrap();
    assert!(text(&sim.real, "app.txt").contains("ttl = 2"));
    sim.run(&mut c, |c, w| c.begin(w)).unwrap();
    sim.write_shadow("app.txt", &original.replace("10", "7"));
    assert!(sim.run(&mut c, |c, w| c.complete(w, tour("app.txt"))).is_err());
    assert!(text(&sim.real, "app.txt").contains("ttl = 2"));
}

#[test]
fn revert_preserves_unrelated_manual_edit_but_refuses_overlap() {
    let (mut sim, mut c) = fixture();
    let original = text(&sim.real, "app.txt");
    build(&mut sim, &mut c, "app.txt", &original.replace("10", "5"));
    sim.run(&mut c, |c, w| c.apply(w)).unwrap();
    let edited = text(&sim.real, "app.txt").replace("footer", "human footer");
    write_real(&mut sim, "app.txt", &edited);
    sim.run(&mut c, |c, w| c.revert(w, 0)).unwrap();
    assert_eq!(text(&sim.real, "app.txt"), original.replace("footer", "human footer"));
    let (mut sim, mut c) = fixture();
    build(&mut sim, &mut c, "app.txt", &original.replace("10", "5"));
    sim.run(&mut c, |c, w| c.apply(w)).unwrap();
    write_real(&mut sim, "app.txt", &original.replace("10", "2"));
    assert!(sim.run(&mut c, |c, w| c.revert(w, 0)).is_err());
    assert!(text(&sim.real, "app.txt").contains("ttl = 2"));
}

#[test]
fn multi_file_conflict_has_no_partial_application() {
    let (mut sim, mut c) = fixture();
    sim.run(&mut c, |c, w| c.begin(w)).unwrap();
    sim.write_shadow("app.txt", "agent\n");
    sim.write_shadow("other.txt", "agent\n");
    sim.run(&mut c, |c, w| c.complete(w, tour("app.txt"))).unwrap();
    write_real(&mut sim, "other.txt", "human\n");
    assert!(sim.run(&mut c, |c, w| c.apply(w)).is_err());
    assert!(text(&sim.real, "app.txt").contains("ttl = 10"));
    assert_eq!(text(&sim.real, "other.txt"), "human\n");
}

#[test]
fn untracked_collision_and_symlink_are_not_overwritten() {
    let (mut sim, mut c) = fixture();
    build(&mut sim, &mut c, "new.txt", "agent\n");
    write_real(&mut sim, "new.txt", "human\n");
    assert!(sim.run(&mut c, |c, w| c.apply(w)).is_err());
    assert_eq!(text(&sim.real, "new.txt"), "human\n");
}

#[test]
fn history_switch_preserves_manual_edits_or_reports_conflicts() {
    let (mut sim, mut c) = fixture();
    let original = text(&sim.real, "app.txt");
    build(&mut sim, &mut c, "app.txt", &original.replace("10", "5"));
    sim.run(&mut c, |c, w| c.apply(w)).unwrap();
    write_real(&mut sim, "app.txt", &original.replace("10", "2"));
    build(&mut sim, &mut c, "other.txt", "revision\n");
    sim.run(&mut c, |c, w| c.apply(w)).unwrap();
    sim.run(&mut c, |c, w| c.switch(w, 1)).unwrap();
    sim.run(&mut c, |c, w| c.apply(w)).unwrap();
    assert!(text(&sim.real, "app.txt").contains("ttl = 2"));
    assert_eq!(text(&sim.real, "other.txt"), "original\n");
}

#[test]
fn later_human_choices_supersede_earlier_edits_across_revisions() {
    let (mut sim, mut c) = fixture();
    let original = text(&sim.real, "app.txt");
    build(&mut sim, &mut c, "app.txt", &original.replace("10", "5"));
    sim.run(&mut c, |c, w| c.apply(w)).unwrap();
    write_real(&mut sim, "app.txt", &original.replace("10", "2"));
    build(&mut sim, &mut c, "other.txt", "second proposal\n");
    sim.run(&mut c, |c, w| c.apply(w)).unwrap();
    write_real(&mut sim, "app.txt", &original.replace("10", "3"));
    build(&mut sim, &mut c, "other.txt", "third proposal\n");
    sim.run(&mut c, |c, w| c.apply(w)).unwrap();
    assert!(text(&sim.real, "app.txt").contains("ttl = 3"));
    sim.run(&mut c, |c, w| c.switch(w, 1)).unwrap();
    sim.run(&mut c, |c, w| c.apply(w)).unwrap();
    assert!(text(&sim.real, "app.txt").contains("ttl = 3"));
}

#[test]
fn revising_an_unapplied_proposal_keeps_its_implementation_in_shadow() {
    let (mut sim, mut c) = fixture();
    build(&mut sim, &mut c, "other.txt", "first implementation\n");
    sim.run(&mut c, |c, w| c.begin(w)).unwrap();
    assert_eq!(text(&sim.shadow, "other.txt"), "first implementation\n");
    sim.write_shadow("app.txt", "extension\n");
    sim.run(&mut c, |c, w| c.complete(w, tour("app.txt"))).unwrap();
    assert_eq!(text(&sim.real, "other.txt"), "original\n");
    sim.run(&mut c, |c, w| c.apply(w)).unwrap();
    assert_eq!(text(&sim.real, "other.txt"), "first implementation\n");
    assert_eq!(text(&sim.real, "app.txt"), "extension\n");
}

#[test]
fn saved_preview_edits_are_applied_and_included_in_diff() {
    let (mut sim, mut c) = fixture();
    build(&mut sim, &mut c, "other.txt", "agent draft\n");
    sim.write_shadow("other.txt", "human adjustment\n");
    sim.write_shadow("extra.txt", "human file\n");
    let diff = sim.run(&mut c, |c, w| c.diff(w)).unwrap();
    assert!(diff.contains("diff --git a/other.txt"));
    assert_eq!(text(&sim.real, "other.txt"), "original\n");
    sim.run(&mut c, |c, w| c.apply(w)).unwrap();
    assert_eq!(text(&sim.real, "other.txt"), "human adjustment\n");
    assert_eq!(text(&sim.real, "extra.txt"), "human file\n");
    assert_eq!(sim.run(&mut c, |c, w| c.changes(w)).unwrap().len(), 2);
}

#[test]
fn proposal_questions_keep_the_tour_and_revisions_start_with_saved_edits() {
    let (mut sim, mut c) = fixture();
    build(&mut sim, &mut c, "other.txt", "agent draft\n");
    c.tour_move(2).unwrap();
    let tour_id = c.tour().unwrap().id;
    sim.write_shadow("other.txt", "human adjustment\n");
    sim.run(&mut c, |c, w| c.refine(w)).unwrap();
    sim.run(&mut c, |c, w| c.finish_refinement(w, None)).unwrap();
    assert_eq!(c.session.proposals.len(), 1);
    assert_eq!(c.tour().unwrap().id, tour_id);
    assert_eq!(c.tour().unwrap().current_stop, 2);
    sim.run(&mut c, |c, w| c.refine(w)).unwrap();
    assert_eq!(text(&sim.shadow, "other.txt"), "human adjustment\n");
    sim.write_shadow("new.txt", "agent revision\n");
    sim.run(&mut c, |c, w| c.finish_refinement(w, Some(tour("new.txt")))).unwrap();
    assert_eq!(c.session.selected, Some(2));
    assert_eq!(text(&sim.real, "other.txt"), "original\n");
    assert!(sim.real.get("new.txt").is_none());
    sim.run(&mut c, |c, w| c.apply(w)).unwrap();
    assert_eq!(text(&sim.real, "other.txt"), "human adjustment\n");
    assert_eq!(text(&sim.real, "new.txt"), "agent revision\n");
}

#[test]
fn failed_refinements_restore_saved_preview_and_tour() {
    let (mut sim, mut c) = fixture();
    build(&mut sim, &mut c, "other.txt", "agent draft\n");
    sim.write_shadow("other.txt", "saved human edit\n");
    c.tour_move(1).unwrap();
    let tour_id = c.tour().unwrap().id;
    sim.run(&mut c, |c, w| c.refine(w)).unwrap();
    sim.write_shadow("other.txt", "partial work\n");
    sim.write_shadow("partial.txt", "incomplete\n");
    assert!(sim.run(&mut c, |c, w| c.finish_refinement(w, None)).is_err());
    sim.run(&mut c, |c, w| c.failed(w)).unwrap();
    assert_eq!(c.session.stage, Stage::Tour);
    assert_eq!(c.session.selected, Some(1));
    assert_eq!(c.tour().unwrap().id, tour_id);
    assert_eq!(c.tour().unwrap().current_stop, 1);
    assert_eq!(text(&sim.shadow, "other.txt"), "saved human edit\n");
    assert!(sim.shadow.get("partial.txt").is_none());
    sim.run(&mut c, |c, w| c.apply(w)).unwrap();
    assert_eq!(text(&sim.real, "other.txt"), "saved human edit\n");
}

#[test]
fn switching_proposals_keeps_each_saved_draft() {
    let (mut sim, mut c) = fixture();
    build(&mut sim, &mut c, "other.txt", "first\n");
    sim.write_shadow("other.txt", "first with human edit\n");
    sim.run(&mut c, |c, w| c.refine(w)).unwrap();
    sim.write_shadow("other.txt", "second\n");
    sim.run(&mut c, |c, w| c.finish_refinement(w, Some(tour("other.txt")))).unwrap();
    sim.write_shadow("other.txt", "second with human edit\n");
    sim.run(&mut c, |c, w| c.switch(w, 1)).unwrap();
    assert_eq!(text(&sim.shadow, "other.txt"), "first with human edit\n");
    sim.run(&mut c, |c, w| c.switch(w, 2)).unwrap();
    assert_eq!(text(&sim.shadow, "other.txt"), "second with human edit\n");
    sim.run(&mut c, |c, w| c.apply(w)).unwrap();
    assert_eq!(text(&sim.real, "other.txt"), "second with human edit\n");
}

fn shadow_path(c: &Controller, file: &str) -> String {
    format!("{}/{}", c.workspace.shadow, file)
}

#[test]
fn peek_uses_the_saved_draft_and_current_hunk_without_writing_real_files() {
    let (mut sim, mut c) = fixture();
    let original = text(&sim.real, "app.txt").replace("footer", "one\ntwo\nthree\nfour\nfive\nfooter");
    write_real(&mut sim, "app.txt", &original);
    build(&mut sim, &mut c, "app.txt", &original.replace("10", "5").replace("footer", "agent footer"));
    sim.write_shadow("app.txt", &original.replace("10", "2").replace("footer", "human footer"));
    c.editor.file = Some(shadow_path(&c, "app.txt"));
    c.editor.line = 1;
    let peek = sim.run(&mut c, |c, w| c.peek(w)).unwrap();
    assert_eq!(peek.old.as_deref(), Some(original.as_str()));
    assert!(peek.current.as_ref().unwrap().contains("ttl = 2"));
    assert_eq!((peek.old_line, peek.current_line), (1, 1));
    c.editor.line = 13;
    assert!(sim.run(&mut c, |c, w| c.peek(w)).unwrap().current_line > 1);
    let file = c.editor.file.clone().unwrap();
    c.editor.dirty.push(file);
    assert!(matches!(sim.run(&mut c, |c, w| c.peek(w)), Err(Refusal::SaveBufferFirst)));
    c.editor.dirty.clear();
    assert_eq!(text(&sim.real, "app.txt"), original);
    c.editor.file = Some("/tmp/outside.txt".into());
    assert!(sim.run(&mut c, |c, w| c.peek(w)).is_err());
}

#[test]
fn peek_handles_deletions_and_unchanged_locations() {
    let (mut sim, mut c) = fixture();
    let original = "a\nb\nc\nd\ne\nf\ng\nh\ni\nj\nk\nl\n";
    write_real(&mut sim, "app.txt", original);
    build(&mut sim, &mut c, "app.txt", &original.replace("a\n", ""));
    c.editor.file = Some(shadow_path(&c, "app.txt"));
    c.editor.line = 1;
    let comparison = sim.run(&mut c, |c, w| c.peek(w)).unwrap();
    assert_eq!(comparison.old.as_deref(), Some(original));
    assert_eq!(comparison.current.as_deref(), Some(original.trim_start_matches("a\n")));
    c.editor.line = 10;
    assert!(matches!(sim.run(&mut c, |c, w| c.peek(w)), Err(Refusal::NoChangeHere)));
}

#[test]
fn comparison_handles_added_deleted_binary_and_applied_files() {
    let (mut sim, mut c) = fixture();
    build(&mut sim, &mut c, "new.txt", "new content\n");
    c.editor.file = Some(shadow_path(&c, "new.txt"));
    c.editor.line = 1;
    assert!(sim.run(&mut c, |c, w| c.peek(w)).unwrap().old.is_none());
    sim.run(&mut c, |c, w| c.apply(w)).unwrap();
    c.editor.file = Some(format!("{}/new.txt", c.workspace.real));
    write_real(&mut sim, "new.txt", "human edit\n");
    assert_eq!(sim.run(&mut c, |c, w| c.peek(w)).unwrap().current.as_deref(), Some("human edit\n"));
    let (mut sim, mut c) = fixture();
    build(&mut sim, &mut c, "app.txt", "replacement\n");
    c.editor.file = Some(shadow_path(&c, "app.txt"));
    c.editor.line = 1;
    sim.shadow.remove("app.txt");
    assert!(sim.run(&mut c, |c, w| c.peek(w)).unwrap().current.is_none());
    sim.shadow.insert("app.txt".to_string(), File { bytes: b"binary\0content".to_vec(), executable: false });
    assert!(matches!(sim.run(&mut c, |c, w| c.peek(w)), Err(Refusal::BinaryComparison)));
}

#[test]
fn ending_a_failed_turn_twice_changes_nothing() {
    let (mut sim, mut c) = fixture();
    sim.run(&mut c, |c, w| c.begin(w)).unwrap();
    sim.run(&mut c, |c, w| c.failed(w)).unwrap();
    let generation = c.generation;
    let stage = c.session.stage;
    let tours = c.session.tours.len();
    sim.run(&mut c, |c, w| c.failed(w)).unwrap();
    assert_eq!(c.generation, generation);
    assert_eq!(c.session.stage, stage);
    assert_eq!(c.session.tours.len(), tours);
    assert!(!c.busy);
    assert!(c.turn.is_none());
}

#[test]
fn binary_mode_and_deleted_file_reverts_preserve_git_index() {
    let (mut sim, mut c) = fixture();
    sim.run(&mut c, |c, w| c.begin(w)).unwrap();
    sim.shadow.insert("binary.bin".to_string(), File { bytes: vec![0, 1, 2, 3], executable: false });
    let app = sim.shadow.get("app.txt").unwrap().copy();
    sim.shadow.insert("app.txt".to_string(), File { bytes: app.bytes, executable: true });
    sim.shadow.remove("other.txt");
    sim.run(&mut c, |c, w| c.complete(w, tour("app.txt"))).unwrap();
    sim.run(&mut c, |c, w| c.apply(w)).unwrap();
    assert_eq!(sim.run(&mut c, |c, w| c.changes(w)).unwrap().len(), 3);
    for id in (0..3).rev() {
        sim.run(&mut c, |c, w| c.revert(w, id)).unwrap();
    }
    assert!(sim.real.get("binary.bin").is_none());
    assert_eq!(text(&sim.real, "other.txt"), "original\n");
    assert!(!sim.real.get("app.txt").unwrap().executable);
}

#[test]
fn only_begin_gives_a_turn_build_access() {
    let (mut sim, mut c) = fixture();
    let (prompt, mode) = sim.run(&mut c, |c, w| c.turn_for(w, Action::Message { text: "What does this do?".into() })).unwrap().unwrap();
    assert_eq!((prompt.as_str(), mode), ("What does this do?", WorkspaceMode::ReadOnly));
    assert!(c.busy);
    assert!(matches!(sim.run(&mut c, |c, w| c.turn_for(w, Action::Message { text: "again".into() })), Err(Refusal::AgentBusy)));
    sim.run(&mut c, |c, w| c.finish_conversation(w, None)).unwrap();
    assert!(!c.busy);
    assert!(matches!(sim.run(&mut c, |c, w| c.turn_for(w, Action::Revise { feedback: "  ".into() })), Err(Refusal::EmptyMessage)));
    assert!(sim.run(&mut c, |c, w| c.turn_for(w, Action::Diff)).unwrap().is_none());
    let (prompt, mode) = sim.run(&mut c, |c, w| c.turn_for(w, Action::Begin { text: String::new() })).unwrap().unwrap();
    assert_eq!((prompt.as_str(), mode), ("Implement the approach agreed in our conversation.", WorkspaceMode::Build));
    assert_eq!(c.session.stage, Stage::Building);
}

#[test]
fn messages_on_tour_refine_only_with_every_buffer_saved() {
    let (mut sim, mut c) = fixture();
    build(&mut sim, &mut c, "app.txt", "replacement\n");
    c.editor.dirty = vec!["app.txt".into()];
    let (_, mode) = sim.run(&mut c, |c, w| c.turn_for(w, Action::Message { text: "why?".into() })).unwrap().unwrap();
    assert_eq!(mode, WorkspaceMode::ReadOnly);
    sim.run(&mut c, |c, w| c.finish_conversation(w, None)).unwrap();
    c.editor.dirty = vec![];
    let (_, mode) = sim.run(&mut c, |c, w| c.turn_for(w, Action::Revise { feedback: "rename it".into() })).unwrap().unwrap();
    assert_eq!(mode, WorkspaceMode::Refine);
    assert!(c.refining());
}

#[test]
fn a_refused_apply_keeps_the_saved_preview_as_the_draft() {
    let (mut sim, mut c) = fixture();
    sim.run(&mut c, |c, w| c.begin(w)).unwrap();
    sim.write_shadow("other.txt", "agent\n");
    sim.run(&mut c, |c, w| c.complete(w, tour("other.txt"))).unwrap();
    let drafts = c.session.drafts.len();
    write_real(&mut sim, "other.txt", "human\n");
    assert!(matches!(sim.run(&mut c, |c, w| c.apply(w)), Err(Refusal::Conflict(_))));
    assert_eq!(c.session.drafts.len(), drafts + 1);
    assert_eq!(c.session.stage, Stage::Tour);
    assert_eq!(text(&sim.real, "other.txt"), "human\n");
}
