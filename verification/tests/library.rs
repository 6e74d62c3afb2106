use tandem::agent::{inherits_setting, repository_tour, AgentEvent, MockBackend, MockStep, Turn, WorkspaceMode};
use tandem::controller::{validate_tour, Controller};
use tandem::error::{Fault, Refusal};
use tandem::hunks::{count_newlines, hunks, range, undo, Hunk};
use tandem::listing::{capture, file_mode, index_entry, load, preflight, replace, rollback, unchanged, with_known};
use tandem::protocol::{Action, Stage, TourDraft, TourStop};
use tandem::server::{
    begin_prompt, check_version, conversation_action, frame_status, is_cancel, remember, user_text, FrameStatus,
};
use tandem::session::{checkout_key, runtime_directory, Address, Registry};
use tandem::codex::{policy, translate, Notice, SandboxPolicy};
use tandem::sandbox::{common_dir, gitdir_of};
use tandem::protocol::{Payload, Response};
use tandem::snapshot::{File, Snapshot};
use tandem::text::{decimal, has_text};
use tandem::workspace::{merge, valid_path, Workspace};
use tandem::world::{TextMerge, World};

fn file(s: &str) -> File {
    File { bytes: s.as_bytes().to_vec(), executable: false }
}

fn snapshot(entries: &[(&str, &str)]) -> Snapshot {
    let mut s = Snapshot::new();
    for (p, c) in entries {
        s.insert(p.to_string(), file(c));
    }
    s
}

fn chars(s: &str) -> Vec<char> {
    s.chars().collect()
}

fn controller() -> Controller {
    let ws = Workspace { real: "/repo".into(), shadow: "/session/worktree".into(), storage: "/session/objects".into() };
    Controller::create(ws, "a".repeat(40))
}

#[test]
fn repository_paths_stay_inside_the_repository() {
    assert!(valid_path("src/main.rs"));
    assert!(valid_path("a/./b"));
    assert!(!valid_path(""));
    assert!(!valid_path("/etc/passwd"));
    assert!(!valid_path("../outside"));
    assert!(!valid_path("a/../b"));
    assert!(!valid_path(".git/config"));
    assert!(!valid_path("sub/.git"));
    assert!(!valid_path("./a"));
}

#[test]
fn merge_takes_one_sided_changes_without_text_merges() {
    let w = World::new();
    let base = snapshot(&[("a", "1\n"), ("b", "2\n")]);
    let current = snapshot(&[("a", "human\n"), ("b", "2\n")]);
    let desired = snapshot(&[("a", "1\n"), ("b", "agent\n"), ("c", "new\n")]);
    let merged = merge(&base, &current, &desired, &w).unwrap();
    assert!(merged.same(&snapshot(&[("a", "human\n"), ("b", "agent\n"), ("c", "new\n")])));
}

#[test]
fn merge_fast_forwards_and_keeps_current_without_change() {
    let w = World::new();
    let base = snapshot(&[("a", "1\n")]);
    let desired = snapshot(&[("a", "2\n"), ("b", "3\n")]);
    assert!(merge(&base, &base, &desired, &w).unwrap().same(&desired));
    let current = snapshot(&[("a", "human\n")]);
    assert!(merge(&base, &current, &base, &w).unwrap().same(&current));
    assert!(merge(&base, &desired, &desired, &w).unwrap().same(&desired));
}

#[test]
fn merge_asks_for_text_merges_and_reports_conflicts() {
    let mut w = World::new();
    let base = snapshot(&[("a", "1\n2\n"), ("b", "x\n")]);
    let current = snapshot(&[("a", "one\n2\n"), ("b", "y\n")]);
    let desired = snapshot(&[("a", "1\ntwo\n"), ("b", "z\n")]);
    match merge(&base, &current, &desired, &w) {
        Err(Fault::Need(tandem::world::Need::TextMerge(b, c, d))) => {
            assert_eq!(b, b"1\n2\n".to_vec());
            assert_eq!(c, b"one\n2\n".to_vec());
            assert_eq!(d, b"1\ntwo\n".to_vec());
        }
        other => panic!("unexpected {other:?}"),
    }
    w.merges.push(TextMerge { base: b"1\n2\n".to_vec(), current: b"one\n2\n".to_vec(), desired: b"1\ntwo\n".to_vec(), merged: Some(b"one\ntwo\n".to_vec()) });
    w.merges.push(TextMerge { base: b"x\n".to_vec(), current: b"y\n".to_vec(), desired: b"z\n".to_vec(), merged: None });
    match merge(&base, &current, &desired, &w) {
        Err(Fault::Refused(Refusal::Conflict(paths))) => assert_eq!(paths, vec!["b".to_string()]),
        other => panic!("unexpected {other:?}"),
    }
    w.merges.pop();
    w.merges.push(TextMerge { base: b"x\n".to_vec(), current: b"y\n".to_vec(), desired: b"z\n".to_vec(), merged: Some(b"yz\n".to_vec()) });
    let merged = merge(&base, &current, &desired, &w).unwrap();
    assert!(merged.same(&snapshot(&[("a", "one\ntwo\n"), ("b", "yz\n")])));
}

#[test]
fn merge_refuses_creation_deletion_and_binary_overlaps() {
    let w = World::new();
    let base = snapshot(&[("a", "1\n")]);
    let current = snapshot(&[]);
    let desired = snapshot(&[("a", "2\n")]);
    assert!(matches!(merge(&base, &current, &desired, &w), Err(Fault::Refused(Refusal::Conflict(_)))));
    let base = snapshot(&[("bin", "a\0b")]);
    let current = snapshot(&[("bin", "c\0d")]);
    let desired = snapshot(&[("bin", "e\0f")]);
    assert!(matches!(merge(&base, &current, &desired, &w), Err(Fault::Refused(Refusal::Conflict(_)))));
}

#[test]
fn snapshots_keep_paths_sorted_and_distinct() {
    let mut s = snapshot(&[("b", "2"), ("a", "1"), ("c", "3")]);
    s.insert("a".into(), file("one"));
    assert_eq!(s.paths(), vec!["a".to_string(), "b".to_string(), "c".to_string()]);
    assert_eq!(s.get("a").unwrap().bytes, b"one".to_vec());
    s.remove("b");
    assert_eq!(s.count(), 2);
    assert!(s.get("b").is_none());
}

#[test]
fn hunk_ranges_default_the_count_and_start_at_zero() {
    assert_eq!(range(&chars("-12,3")).unwrap(), (11, 3));
    assert_eq!(range(&chars("+4")).unwrap(), (3, 1));
    assert_eq!(range(&chars("-5,0")).unwrap(), (5, 0));
    assert_eq!(range(&chars("+0,0")).unwrap(), (0, 0));
    assert!(matches!(range(&chars("")), Err(Refusal::InvalidHunk)));
    assert!(matches!(range(&chars("-x")), Err(Refusal::InvalidHunk)));
}

#[test]
fn hunk_headers_are_read_from_diff_lines() {
    let diff = "diff --git a/f b/f\n--- a/f\n+++ b/f\n@@ -1 +1 @@ first\n-a\n+b\n@@ -8,2 +8,0 @@\r\n-x\n-y\n";
    let hs = hunks(diff).unwrap();
    assert_eq!(hs.len(), 2);
    assert_eq!(hs[0].label, "@@ -1 +1 @@ first");
    assert_eq!(hs[0].old, (0, 1));
    assert_eq!(hs[1].old, (7, 2));
    assert_eq!(hs[1].new, (8, 0));
    assert_eq!(hs[1].label, "@@ -8,2 +8,0 @@");
    assert!(matches!(hunks("@@ -1\n"), Err(Refusal::InvalidHunk)));
}

#[test]
fn undoing_a_hunk_restores_its_old_lines() {
    let old = b"a\nb\nc\n".to_vec();
    let new = b"a\nB\nc\nd\n".to_vec();
    let h = Hunk { label: "@@ -2 +2 @@".into(), old: (1, 1), new: (1, 1) };
    assert_eq!(undo(&old, &new, &h).unwrap(), b"a\nb\nc\nd\n".to_vec());
    let h = Hunk { label: "@@ -3,0 +4 @@".into(), old: (3, 0), new: (3, 1) };
    assert_eq!(undo(&old, &new, &h).unwrap(), b"a\nB\nc\n".to_vec());
    let h = Hunk { label: "bad".into(), old: (0, 9), new: (0, 1) };
    assert!(matches!(undo(&old, &new, &h), Err(Refusal::InvalidHunk)));
}

#[test]
fn newlines_are_counted() {
    assert_eq!(count_newlines(&b"".to_vec()), 0);
    assert_eq!(count_newlines(&b"a\nb\n".to_vec()), 2);
}

fn draft(line: usize, end_line: usize) -> TourDraft {
    TourDraft {
        title: "T".into(),
        overview: "O".into(),
        stops: vec![TourStop { title: "s".into(), body: "b".into(), file: "app.txt".into(), line, end_line }],
    }
}

#[test]
fn tour_stops_must_read_existing_lines() {
    let files = snapshot(&[("app.txt", "one\ntwo\n")]);
    assert!(validate_tour(&draft(1, 3), &files).is_ok());
    assert!(matches!(validate_tour(&draft(1, 4), &files), Err(Refusal::RangeOutOfBounds(_, 1, 4))));
    assert!(matches!(validate_tour(&draft(0, 1), &files), Err(Refusal::RangeOutOfBounds(_, 0, 1))));
    assert!(matches!(validate_tour(&draft(2, 1), &files), Err(Refusal::RangeOutOfBounds(_, 2, 1))));
    let mut d = draft(1, 1);
    d.title = "  ".into();
    assert!(matches!(validate_tour(&d, &files), Err(Refusal::TourUntitled)));
    let mut d = draft(1, 1);
    d.stops[0].file = "missing.txt".into();
    assert!(matches!(validate_tour(&d, &files), Err(Refusal::UnknownTourFile)));
    d.stops[0].file = "../x".into();
    assert!(matches!(validate_tour(&d, &files), Err(Refusal::UnsafePath(_))));
    let mut d = draft(1, 1);
    for _ in 0..200 {
        let s = d.stops[0].copy();
        d.stops.push(s);
    }
    assert!(matches!(validate_tour(&d, &files), Err(Refusal::TourTooLarge)));
}

#[test]
fn conversation_commands_are_parsed() {
    let c = controller();
    assert!(matches!(conversation_action("  /begin  add a flag  ", &c), Ok(Action::Begin { text }) if text == "add a flag"));
    assert!(matches!(conversation_action("/begin", &c), Ok(Action::Begin { text }) if text.is_empty()));
    assert!(matches!(conversation_action("/proposal 2", &c), Ok(Action::Switch { proposal: 2 })));
    assert!(matches!(conversation_action("/proposal two", &c), Err(Refusal::InvalidNumber)));
    assert!(matches!(conversation_action("/next", &c), Ok(Action::NextChange)));
    assert!(matches!(conversation_action("/prev", &c), Ok(Action::PreviousChange)));
    assert!(matches!(conversation_action("/jump 3", &c), Ok(Action::TourJump { index: 3 })));
    assert!(matches!(conversation_action("/revert", &c), Ok(Action::Revert { change: 0 })));
    assert!(matches!(conversation_action("/revert 4", &c), Ok(Action::Revert { change: 4 })));
    assert!(matches!(conversation_action("/apply", &c), Ok(Action::Apply)));
    assert!(matches!(conversation_action("/diff", &c), Ok(Action::Diff)));
    assert!(matches!(conversation_action("/peek", &c), Ok(Action::Peek)));
    assert!(matches!(conversation_action("/close", &c), Ok(Action::TourClose)));
    assert!(matches!(conversation_action("/cancel", &c), Ok(Action::Cancel)));
    assert!(matches!(conversation_action("/plan x", &c), Err(Refusal::UnknownAction)));
    assert!(matches!(conversation_action("  sounds good ", &c), Ok(Action::Message { text }) if text == "sounds good"));
}

#[test]
fn next_and_previous_move_through_an_active_tour() {
    let mut c = controller();
    c.session.tours.push(tandem::protocol::Tour { id: 1, source: tandem::protocol::TourSource::Repository, current_stop: 0, content: draft(1, 1) });
    c.session.active_tour = Some(0);
    assert!(matches!(conversation_action("/next", &c), Ok(Action::TourNext)));
    assert!(matches!(conversation_action("/prev", &c), Ok(Action::TourPrevious)));
}

#[test]
fn history_keeps_the_newest_lines_within_its_limits() {
    let mut h: Vec<String> = vec![];
    for i in 0..250 {
        remember(&mut h, &format!("line {i}"));
    }
    assert_eq!(h.len(), 200);
    assert_eq!(h[0], "line 50");
    assert_eq!(h[199], "line 249");
    let long = "x".repeat(20000);
    remember(&mut h, &long);
    assert_eq!(h.last().unwrap().len(), 16000);
    for _ in 0..20 {
        remember(&mut h, &long);
    }
    assert!(h.iter().map(String::len).sum::<usize>() <= 200_000);
    assert_eq!(h.len(), 12);
}

#[test]
fn frames_end_with_a_newline_within_the_limit() {
    assert_eq!(frame_status(&vec![]), FrameStatus::End);
    assert_eq!(frame_status(&b"{}\n".to_vec()), FrameStatus::Frame);
    assert_eq!(frame_status(&b"{}".to_vec()), FrameStatus::Invalid);
    let mut big = vec![b'a'; 1048576];
    big.push(b'\n');
    assert_eq!(frame_status(&big), FrameStatus::Invalid);
    assert!(check_version(1).is_ok());
    assert!(matches!(check_version(2), Err(Refusal::UnsupportedVersion(2))));
}

#[test]
fn cancel_and_begin_prompts() {
    assert!(is_cancel("  /cancel now"));
    assert!(!is_cancel("/cancelled"));
    assert!(!is_cancel("   "));
    assert_eq!(begin_prompt("  ".into()), "Implement the approach agreed in our conversation.");
    assert_eq!(begin_prompt("do it".into()), "do it");
    assert_eq!(user_text(&Action::Revise { feedback: "f".into() }), Some("f".to_string()));
    assert_eq!(user_text(&Action::Apply), None);
}

#[test]
fn messages_need_an_idle_agent_and_text() {
    let mut c = controller();
    assert!(matches!(c.check_message("  "), Err(Refusal::EmptyMessage)));
    assert!(c.check_message("hi").is_ok());
    c.busy = true;
    assert!(matches!(c.check_message("hi"), Err(Refusal::AgentBusy)));
    assert!(matches!(c.check_shutdown(), Err(Refusal::CancelBeforeShutdown)));
    assert!(!c.message_refines());
}

#[test]
fn connecting_an_editor_waits_for_its_context() {
    let mut c = controller();
    c.connect_editor(true);
    assert_eq!(c.editor_connected, Some(true));
    assert_eq!(c.editor.dirty, vec!["waiting for editor context".to_string()]);
    let mut context = c.editor.clone();
    context.dirty = vec![];
    context.nearby = "n".repeat(17000);
    context.selection = "s".repeat(5000);
    c.set_context(context);
    assert_eq!(c.editor.nearby.chars().count(), 16000);
    assert_eq!(c.editor.selection.chars().count(), 4000);
    assert!(c.editor.dirty.is_empty());
}

#[test]
fn checkout_keys_are_fnv1a() {
    assert_eq!(checkout_key(b""), 0xcbf29ce484222325);
    assert_eq!(checkout_key(b"a"), 0xaf63dc4c8601ec8c);
    let r = Registry::new(&"/run/tandem".to_string(), "/home/u/project".to_string());
    let key = checkout_key(b"/home/u/project");
    assert_eq!(r.directory(), format!("/run/tandem/checkout-{key:016x}"));
    let (path, address) = r.publish(&"/s/controller.sock".to_string());
    assert_eq!(path, format!("/run/tandem/checkout-{key:016x}/active.json"));
    assert_eq!(address.project, "/home/u/project");
    assert_eq!(address.socket, "/s/controller.sock");
}

#[test]
fn file_lists_and_tree_listings_are_read() {
    let paths = capture(&b"a.txt\0dir/b.txt\0\0".to_vec()).unwrap();
    assert_eq!(paths, vec!["a.txt".to_string(), "dir/b.txt".to_string()]);
    assert!(matches!(capture(&vec![0xff, 0]), Err(Refusal::NotUtf8Filename)));
    let listing = b"100644 blob 1111\ta.txt\0100755 blob 2222\tbin/run\0".to_vec();
    let entries = load(&listing).unwrap();
    assert_eq!(entries.len(), 2);
    assert_eq!(entries[0].path, "a.txt");
    assert_eq!(entries[0].object, "1111");
    assert!(!entries[0].executable);
    assert!(entries[1].executable);
    assert!(matches!(load(&b"160000 commit 3333\tsub\0".to_vec()), Err(Refusal::UnsupportedTreeEntry)));
    assert!(matches!(load(&b"100644 blob 1111\t../x\0".to_vec()), Err(Refusal::UnsafePath(_))));
    assert!(matches!(load(&b"no tab here\0".to_vec()), Err(Refusal::InvalidTreeListing)));
}

#[test]
fn writes_replace_only_changed_paths_in_order() {
    let current = snapshot(&[("a", "1"), ("b", "2"), ("c", "3")]);
    let desired = snapshot(&[("a", "1"), ("b", "two"), ("d", "4")]);
    let plan = replace(&current, &desired);
    let paths: Vec<_> = plan.iter().map(|(p, f)| (p.clone(), f.as_ref().map(|f| f.bytes.clone()))).collect();
    assert_eq!(paths, vec![("b".to_string(), Some(b"two".to_vec())), ("c".to_string(), None), ("d".to_string(), Some(b"4".to_vec()))]);
}

#[test]
fn written_files_keep_private_permissions() {
    assert_eq!(file_mode(Some(0o600), false), 0o600);
    assert_eq!(file_mode(Some(0o600), true), 0o700);
    assert_eq!(file_mode(Some(0o755), false), 0o644);
    assert_eq!(file_mode(Some(0o751), true), 0o751);
    assert_eq!(file_mode(None, false), 0o600);
    assert_eq!(index_entry(true, "abc\n", "bin/run"), "100755 abc\tbin/run\0");
    assert_eq!(index_entry(false, "abc", "a"), "100644 abc\ta\0");
}

#[test]
fn the_mock_agent_builds_tours_and_answers() {
    let mut m = MockBackend::new();
    let turn = Turn { prompt: "x".into(), context: String::new(), mode: WorkspaceMode::Build, workspace: "/w".into() };
    assert!(matches!(m.plan(&turn), MockStep::Create(p, t) if p == "/w/tandem-example.txt" && t == "A proposal created in Tandem's shadow workspace.\n"));
    let tour = m.built();
    assert_eq!(tour.title, "Offline proposal 1");
    assert!(matches!(m.plan(&turn), MockStep::Append(_, t) if t == "Offline revision 2.\n"));
    let refine = Turn { prompt: "Please CHANGE it".into(), mode: WorkspaceMode::Refine, ..turn.clone() };
    assert!(matches!(m.plan(&refine), MockStep::Append(_, _)));
    let ask = Turn { prompt: "Give me a Tour".into(), mode: WorkspaceMode::ReadOnly, ..turn.clone() };
    assert!(matches!(m.plan(&ask), MockStep::Tour));
    let talk = Turn { prompt: "hello".into(), mode: WorkspaceMode::ReadOnly, ..turn };
    assert!(matches!(m.plan(&talk), MockStep::Say(s) if s == "[offline mock] hello\nDiscuss the change, then use /begin to create a demo proposal."));
    let t = repository_tour(&vec![".gitignore".into(), "src/lib.rs".into()]).unwrap();
    assert_eq!(t.stops.len(), 2);
    assert_eq!(t.stops[1].file, "src/lib.rs");
    assert_eq!(t.stops[1].title, "Return to the same location");
    assert!(repository_tour(&vec![".hidden".into()]).is_none());
}

#[test]
fn decimal_numerals_and_substrings() {
    assert_eq!(decimal(0), "0");
    assert_eq!(decimal(1907), "1907");
    assert!(has_text("a change here", "change"));
    assert!(!has_text("chang", "change"));
    assert!(has_text("x", ""));
}

#[test]
fn a_new_session_starts_in_discussion() {
    let c = controller();
    assert_eq!(c.session.stage, Stage::Discuss);
    assert_eq!(c.session.applied, c.session.baseline);
    assert!(!c.busy);
    assert_eq!(c.generation, 0);
}

#[test]
fn sandboxes_keep_source_read_only_outside_building() {
    let args = tandem::sandbox::sandbox_command(
        &"/s/codex-home".to_string(),
        &"/s/worktree".to_string(),
        WorkspaceMode::ReadOnly,
        &"codex".to_string(),
        &Some("/s/objects".to_string()),
        &vec!["/repo/.git/objects".to_string()],
        true,
        &vec!["/s/controller.sock".to_string()],
    );
    let expected: Vec<&str> = vec![
        "--die-with-parent", "--unshare-pid", "--new-session", "--ro-bind", "/", "/", "--dev", "/dev", "--proc", "/proc",
        "--tmpfs", "/tmp", "--dir", "/tmp/tandem-scratch", "--ro-bind", "/s/worktree", "/s/worktree", "--ro-bind",
        "/s/objects", "/s/objects", "--ro-bind", "/repo/.git/objects", "/repo/.git/objects", "--ro-bind",
        "/s/worktree/.git", "/s/worktree/.git", "--bind", "/s/codex-home", "/tmp/tandem-codex-home", "--ro-bind",
        "/s/codex-home/config.toml", "/tmp/tandem-codex-home/config.toml", "--ro-bind", "/dev/null",
        "/s/controller.sock", "--chdir", "/s/worktree", "--", "codex",
    ];
    assert_eq!(args, expected);
    let build = tandem::sandbox::sandbox_command(
        &"/h".to_string(), &"/w".to_string(), WorkspaceMode::Build, &"codex".to_string(), &None, &vec![], false, &vec![],
    );
    assert_eq!(&build[14..17], &["--bind".to_string(), "/w".to_string(), "/w".to_string()]);
}

#[test]
fn runtime_directories_follow_the_environment() {
    assert_eq!(runtime_directory(Some("/rt".into()), Some("/x".into()), &"/tmp".to_string(), 7), "/rt");
    assert_eq!(runtime_directory(None, Some("/run/user/7".into()), &"/tmp".to_string(), 7), "/run/user/7/tandem");
    assert_eq!(runtime_directory(None, None, &"/tmp".to_string(), 1000), "/tmp/tandem-1000");
}

#[test]
fn agents_inherit_only_model_settings() {
    assert!(inherits_setting("model"));
    assert!(inherits_setting("cli_auth_credentials_store"));
    assert!(!inherits_setting("mcp_servers"));
    assert!(!inherits_setting("models"));
}

#[test]
fn writes_wait_until_every_path_still_holds_its_start() {
    let current = snapshot(&[("a", "1"), ("b", "2")]);
    let desired = snapshot(&[("a", "one"), ("b", "two"), ("c", "3")]);
    let plan = replace(&current, &desired);
    let disk = vec![Some(file("1")), Some(file("2")), None];
    assert!(preflight(&plan, &current, &disk).is_ok());
    let disk = vec![Some(file("1")), Some(file("human")), Some(file("new"))];
    match preflight(&plan, &current, &disk) {
        Err(Refusal::FileChanged(p)) => assert_eq!(p, "b"),
        other => panic!("unexpected {other:?}"),
    }
    assert!(unchanged("c", &current, &None));
    assert!(!unchanged("a", &current, &None));
    assert!(!unchanged("a", &current, &Some(File { bytes: b"1".to_vec(), executable: true })));
}

#[test]
fn rollback_goes_newest_first_and_never_over_a_human_edit() {
    let current = snapshot(&[("a", "1"), ("b", "2")]);
    let desired = snapshot(&[("a", "one"), ("b", "two"), ("c", "3")]);
    let written = vec!["a".to_string(), "b".to_string(), "c".to_string()];
    let disk = vec![Some(file("one")), Some(file("human")), Some(file("3"))];
    let undo = rollback(&written, &current, &desired, &disk);
    let got: Vec<_> = undo.iter().map(|(p, f)| (p.clone(), f.as_ref().map(|f| f.bytes.clone()))).collect();
    assert_eq!(got, vec![("c".to_string(), None), ("a".to_string(), Some(b"1".to_vec()))]);
    assert!(rollback(&vec![], &current, &desired, &vec![]).is_empty());
}

#[test]
fn known_files_found_on_disk_join_the_capture() {
    let captured = snapshot(&[("a", "1")]);
    let found = vec![("ignored.env".to_string(), Some(file("secret"))), ("gone".to_string(), None), ("a".to_string(), Some(file("new")))];
    let files = with_known(&captured, &found);
    assert_eq!(files.paths(), vec!["a".to_string(), "ignored.env".to_string()]);
    assert_eq!(files.get("a").unwrap().bytes, b"new".to_vec());
    assert!(files.get("gone").is_none());
}

#[test]
fn history_over_its_limits_is_cut_from_the_oldest() {
    let mut h: Vec<String> = vec!["x".repeat(150_000), "y".repeat(60_000)];
    remember(&mut h, "hello");
    assert_eq!(h.len(), 2);
    assert_eq!(h[1], "hello");
    assert_eq!(h[0].len(), 60_000);
}

#[test]
fn capability_policy_and_translation() {
    assert!(matches!(policy(WorkspaceMode::ReadOnly, &"/shadow".to_string()), SandboxPolicy::ReadOnly));
    match policy(WorkspaceMode::Build, &"/shadow".to_string()) {
        SandboxPolicy::WorkspaceWrite { writable_roots, exclude_slash_tmp, .. } => {
            assert_eq!(writable_roots, vec!["/shadow".to_string(), "/tmp/tandem-scratch".to_string()]);
            assert!(exclude_slash_tmp);
        }
        SandboxPolicy::ReadOnly => panic!("a build may write"),
    }
    let notice = |method: &str, delta: Option<&str>| Notice {
        method: Some(method.to_string()),
        delta: delta.map(str::to_string),
        item_type: None,
        command: None,
        exit_code: "null".to_string(),
        error_message: "null".to_string(),
    };
    assert!(matches!(translate(&notice("item/commandExecution/outputDelta", Some("tests passed"))), Some(AgentEvent::Activity(s)) if s == "tests passed"));
    assert!(translate(&notice("unknown", None)).is_none());
}

#[test]
fn command_notices_and_errors_become_activity() {
    let n = Notice {
        method: Some("item/completed".to_string()),
        delta: None,
        item_type: Some("commandExecution".to_string()),
        command: Some("cargo test".to_string()),
        exit_code: "0".to_string(),
        error_message: "null".to_string(),
    };
    assert!(matches!(translate(&n), Some(AgentEvent::Activity(s)) if s == "Command completed (exit 0)"));
    let started = Notice { method: Some("item/started".to_string()), ..n };
    assert!(matches!(translate(&started), Some(AgentEvent::Activity(s)) if s == "cargo test"));
    let other = Notice { item_type: Some("fileChange".to_string()), ..started };
    assert!(translate(&other).is_none());
    let error = Notice { method: Some("error".to_string()), error_message: "\"quota\"".to_string(), ..other };
    assert!(matches!(translate(&error), Some(AgentEvent::Activity(s)) if s == "Codex: \"quota\""));
    let none = Notice { method: None, ..error };
    assert!(translate(&none).is_none());
}

#[test]
fn linked_worktrees_name_their_git_directories() {
    assert_eq!(gitdir_of("gitdir: /repo/.git/worktrees/w\n"), Some("/repo/.git/worktrees/w".to_string()));
    assert_eq!(gitdir_of("  gitdir: x"), Some("x".to_string()));
    assert_eq!(gitdir_of("ref: refs/heads/main"), None);
    assert_eq!(gitdir_of("gitdir:"), None);
    assert_eq!(common_dir(&"/repo/.git/worktrees/w".to_string(), "../..\n"), "/repo/.git/worktrees/w/../..");
    assert_eq!(common_dir(&"/repo/.git/worktrees/w".to_string(), "/shared/.git"), "/shared/.git");
}

#[test]
fn controllers_are_accepted_only_for_this_checkout() {
    let r = Registry::new(&"/run/tandem".to_string(), "/home/u/project".to_string());
    let refused = Response { version: 1, id: 1, view: None, error: Some("no".to_string()), reply: Payload { text: None, comparison: None } };
    let same = Address { project: "/home/u/project/".to_string(), socket: "/s".to_string() };
    assert!(matches!(r.accept(&same, &refused), Err(Refusal::ControllerRejected)));
    let other = Address { project: "/home/u/other".to_string(), socket: "/s".to_string() };
    assert!(matches!(r.accept(&other, &refused), Err(Refusal::ForeignController)));
    let silent = Response { error: None, ..refused };
    assert!(matches!(r.accept(&same, &silent), Err(Refusal::ControllerWithoutState)));
}
