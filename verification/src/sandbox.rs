//! The Bubblewrap arguments that confine an agent runtime: a read-only host, a private
//! `/tmp`, the shadow workspace writable only when the turn may write source, Git
//! metadata always read-only, and the controller's sockets hidden.
use vstd::prelude::*;
use crate::agent::WorkspaceMode;
use crate::workspace::{join_path, joined};
use crate::text::{chars_of, string_of};
use crate::server::{trim, trimmed};

verus! {

/// Where the agent runtime keeps its private state inside the sandbox.
pub open spec fn runtime_home() -> Seq<char> {
    "/tmp/tandem-codex-home"@
}

/// The fixed start: a read-only host, fresh `/dev`, `/proc` and `/tmp`, and scratch space.
pub open spec fn confinement() -> Seq<Seq<char>> {
    seq!["--die-with-parent"@, "--unshare-pid"@, "--new-session"@, "--ro-bind"@, "/"@, "/"@, "--dev"@, "/dev"@,
        "--proc"@, "/proc"@, "--tmpfs"@, "/tmp"@, "--dir"@, "/tmp/tandem-scratch"@]
}

/// Binds each path read-only at itself.
pub open spec fn read_only_binds(paths: Seq<Seq<char>>) -> Seq<Seq<char>>
    decreases paths.len(),
{
    if paths.len() == 0 {
        Seq::empty()
    } else {
        seq!["--ro-bind"@, paths[0], paths[0]] + read_only_binds(paths.drop_first())
    }
}

/// Hides each path behind `/dev/null`.
pub open spec fn hidden(paths: Seq<Seq<char>>) -> Seq<Seq<char>>
    decreases paths.len(),
{
    if paths.len() == 0 {
        Seq::empty()
    } else {
        seq!["--ro-bind"@, "/dev/null"@, paths[0]] + hidden(paths.drop_first())
    }
}

/// The arguments that run `program` confined: the workspace `ws` writable only outside
/// read-only turns, the linked Git directory `common` and its object `alternates`, and
/// the workspace's `.git` where it exists, always read-only; the runtime home `home`
/// writable with its configuration read-only; the controller's `sockets` hidden.
pub open spec fn sandbox_args(
    home: Seq<char>,
    ws: Seq<char>,
    mode: WorkspaceMode,
    program: Seq<char>,
    common: Option<Seq<char>>,
    alternates: Seq<Seq<char>>,
    dotgit: bool,
    sockets: Seq<Seq<char>>,
) -> Seq<Seq<char>> {
    confinement()
        + seq![if mode != WorkspaceMode::ReadOnly { "--bind"@ } else { "--ro-bind"@ }, ws, ws]
        + match common {
            Some(c) => seq!["--ro-bind"@, c, c] + read_only_binds(alternates),
            None => Seq::empty(),
        }
        + (if dotgit { seq!["--ro-bind"@, joined(ws, ".git"@), joined(ws, ".git"@)] } else { Seq::empty() })
        + seq!["--bind"@, home, runtime_home(), "--ro-bind"@, joined(home, "config.toml"@), runtime_home() + "/config.toml"@]
        + hidden(sockets)
        + seq!["--chdir"@, ws, "--"@, program]
}

pub open spec fn texts(v: Seq<String>) -> Seq<Seq<char>> {
    v.map_values(|s: String| s@)
}

fn push_all(out: &mut Vec<String>, items: &[&str])
    ensures
        texts(final(out)@) == texts(old(out)@) + items@.map_values(|s: &str| s@),
{
    let mut i: usize = 0;
    while i < items.len()
        invariant
            i <= items@.len(),
            texts(out@) == texts(old(out)@) + items@.take(i as int).map_values(|s: &str| s@),
        decreases items.len() - i,
    {
        let ghost before = texts(out@);
        out.push(items[i].to_owned());
        assert(texts(out@) =~= before.push(items@[i as int]@));
        assert(items@.take(i + 1).map_values(|s: &str| s@) =~= items@.take(i as int).map_values(|s: &str| s@).push(items@[i as int]@));
        i = i + 1;
    }
    assert(items@.take(i as int) =~= items@);
}

fn push_three(out: &mut Vec<String>, a: String, b: String, c: String)
    ensures
        texts(final(out)@) == texts(old(out)@) + seq![a@, b@, c@],
{
    let ghost before = texts(out@);
    out.push(a);
    out.push(b);
    out.push(c);
    assert(texts(out@) =~= before + seq![a@, b@, c@]);
}

/// The Bubblewrap arguments that run `program` confined for a turn with capability `mode`.
pub fn sandbox_command(
    home: &String,
    ws: &String,
    mode: WorkspaceMode,
    program: &String,
    common: &Option<String>,
    alternates: &Vec<String>,
    dotgit: bool,
    sockets: &Vec<String>,
) -> (r: Vec<String>)
    ensures
        texts(r@) == sandbox_args(home@, ws@, mode, program@, match common {
            Some(c) => Some(c@),
            None => None,
        }, texts(alternates@), dotgit, texts(sockets@)),
{
    let mut out: Vec<String> = Vec::new();
    push_all(&mut out, &["--die-with-parent", "--unshare-pid", "--new-session", "--ro-bind", "/", "/", "--dev", "/dev",
        "--proc", "/proc", "--tmpfs", "/tmp", "--dir", "/tmp/tandem-scratch"]);
    assert(texts(out@) =~= confinement());
    let bind = if mode != WorkspaceMode::ReadOnly { "--bind" } else { "--ro-bind" };
    push_three(&mut out, bind.to_owned(), ws.clone(), ws.clone());
    let ghost after_ws = texts(out@);
    match common {
        Some(c) => {
            push_three(&mut out, "--ro-bind".to_owned(), c.clone(), c.clone());
            let ghost start = texts(out@);
            let mut i: usize = 0;
            assert(texts(alternates@).skip(0) =~= texts(alternates@));
            while i < alternates.len()
                invariant
                    i <= alternates@.len(),
                    start + read_only_binds(texts(alternates@)) == texts(out@) + read_only_binds(texts(alternates@).skip(i as int)),
                decreases alternates.len() - i,
            {
                let a = &alternates[i];
                assert(texts(alternates@).skip(i as int)[0] == a@);
                assert(texts(alternates@).skip(i as int).drop_first() =~= texts(alternates@).skip(i + 1));
                let ghost before = texts(out@);
                push_three(&mut out, "--ro-bind".to_owned(), a.clone(), a.clone());
                assert(before + (seq!["--ro-bind"@, a@, a@] + read_only_binds(texts(alternates@).skip(i + 1)))
                    =~= texts(out@) + read_only_binds(texts(alternates@).skip(i + 1)));
                i = i + 1;
            }
            assert(texts(out@) + read_only_binds(texts(alternates@).skip(i as int)) =~= texts(out@));
        },
        None => {},
    }
    if dotgit {
        let git = join_path(ws, &".git".to_owned());
        push_three(&mut out, "--ro-bind".to_owned(), git.clone(), git);
    }
    push_three(&mut out, "--bind".to_owned(), home.clone(), "/tmp/tandem-codex-home".to_owned());
    let config = join_path(home, &"config.toml".to_owned());
    push_three(&mut out, "--ro-bind".to_owned(), config, "/tmp/tandem-codex-home/config.toml".to_owned());
    proof {
        reveal_strlit("/tmp/tandem-codex-home");
        reveal_strlit("/config.toml");
        reveal_strlit("/tmp/tandem-codex-home/config.toml");
        assert("/tmp/tandem-codex-home/config.toml"@ =~= runtime_home() + "/config.toml"@);
    }
    let ghost start = texts(out@);
    let mut j: usize = 0;
    assert(texts(sockets@).skip(0) =~= texts(sockets@));
    while j < sockets.len()
        invariant
            j <= sockets@.len(),
            start + hidden(texts(sockets@)) == texts(out@) + hidden(texts(sockets@).skip(j as int)),
        decreases sockets.len() - j,
    {
        let s = &sockets[j];
        assert(texts(sockets@).skip(j as int)[0] == s@);
        assert(texts(sockets@).skip(j as int).drop_first() =~= texts(sockets@).skip(j + 1));
        let ghost before = texts(out@);
        push_three(&mut out, "--ro-bind".to_owned(), "/dev/null".to_owned(), s.clone());
        assert(before + (seq!["--ro-bind"@, "/dev/null"@, s@] + hidden(texts(sockets@).skip(j + 1)))
            =~= texts(out@) + hidden(texts(sockets@).skip(j + 1)));
        j = j + 1;
    }
    assert(texts(out@) + hidden(texts(sockets@).skip(j as int)) =~= texts(out@));
    let ghost before = texts(out@);
    out.push("--chdir".to_owned());
    out.push(ws.clone());
    out.push("--".to_owned());
    out.push(program.clone());
    assert(texts(out@) =~= before + seq!["--chdir"@, ws@, "--"@, program@]);
    out
}

/// A read-only turn cannot write its workspace: the workspace is bound read-only, and the
/// only writable bind is the runtime's private home.
pub proof fn law_read_only_turns_bind_read_only(
    home: Seq<char>,
    ws: Seq<char>,
    program: Seq<char>,
    common: Option<Seq<char>>,
    alternates: Seq<Seq<char>>,
    dotgit: bool,
    sockets: Seq<Seq<char>>,
)
    ensures
        sandbox_args(home, ws, WorkspaceMode::ReadOnly, program, common, alternates, dotgit, sockets)[14] == "--ro-bind"@,
        sandbox_args(home, ws, WorkspaceMode::ReadOnly, program, common, alternates, dotgit, sockets)[15] == ws,
        sandbox_args(home, ws, WorkspaceMode::Build, program, common, alternates, dotgit, sockets)[14] == "--bind"@,
{
}


/// The Git directory that a linked worktree's `.git` file names: the text after
/// `gitdir: `, once the file's text is trimmed; none where it does not start so.
pub open spec fn gitdir_named(dotgit: Seq<char>) -> Option<Seq<char>> {
    let t = trimmed(dotgit);
    if t.len() >= 8 && t.take(8) == "gitdir: "@ {
        Some(t.skip(8))
    } else {
        None
    }
}

/// The Git directory that the text `dotgit` of a `.git` file names, if it names one.
pub fn gitdir_of(dotgit: &str) -> (r: Option<String>)
    ensures
        match r {
            Some(s) => gitdir_named(dotgit@) == Some(s@),
            None => gitdir_named(dotgit@) is None,
        },
{
    let t = trim(&chars_of(dotgit));
    proof {
        reveal_strlit("gitdir: ");
    }
    if t.len() >= 8 && t[0] == 'g' && t[1] == 'i' && t[2] == 't' && t[3] == 'd' && t[4] == 'i' && t[5] == 'r'
        && t[6] == ':' && t[7] == ' ' {
        assert(t@.take(8) =~= "gitdir: "@);
        assert(t@.subrange(8, t@.len() as int) =~= t@.skip(8));
        Some(string_of(&t, 8, t.len()))
    } else {
        proof {
            if t@.len() >= 8 && t@.take(8) == "gitdir: "@ {
                assert(t@[0] == t@.take(8)[0]);
                assert(t@[1] == t@.take(8)[1]);
                assert(t@[2] == t@.take(8)[2]);
                assert(t@[3] == t@.take(8)[3]);
                assert(t@[4] == t@.take(8)[4]);
                assert(t@[5] == t@.take(8)[5]);
                assert(t@[6] == t@.take(8)[6]);
                assert(t@[7] == t@.take(8)[7]);
            }
        }
        None
    }
}

/// The shared Git directory of a linked worktree: the trimmed text of its `commondir`
/// file, joined to the worktree's Git directory.
pub fn common_dir(gitdir: &String, commondir: &str) -> (r: String)
    ensures
        r@ == joined(gitdir@, trimmed(commondir@)),
{
    let t = trim(&chars_of(commondir));
    let common = string_of(&t, 0, t.len());
    assert(t@.subrange(0, t@.len() as int) =~= t@);
    join_path(gitdir, &common)
}

} // verus!
