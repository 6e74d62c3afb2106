//! What the Codex app-server is told and what its notifications mean: the sandbox policy
//! that grants a turn's source access, and the notifications shown as agent activity.
use vstd::prelude::*;
use crate::agent::{AgentEvent, WorkspaceMode};
use crate::text::{concat, same_text};

verus! {

/// The app-server's sandbox policy for a turn.
#[derive(Debug)]
pub enum SandboxPolicy {
    /// Nothing may be written.
    ReadOnly,
    /// Only the listed roots may be written, without network access or the shared `/tmp`.
    WorkspaceWrite {
        writable_roots: Vec<String>,
        network_access: bool,
        exclude_tmpdir_env_var: bool,
        exclude_slash_tmp: bool,
    },
}

/// The sandbox policy of a turn in `mode` on the shadow `workspace`: read-only for a
/// read-only turn; otherwise the workspace and the scratch directory are writable, with
/// no network and neither `$TMPDIR` nor `/tmp`.
pub fn policy(mode: WorkspaceMode, workspace: &String) -> (r: SandboxPolicy)
    ensures
        mode == WorkspaceMode::ReadOnly ==> r is ReadOnly,
        mode != WorkspaceMode::ReadOnly ==> (r matches SandboxPolicy::WorkspaceWrite {
            writable_roots,
            network_access,
            exclude_tmpdir_env_var,
            exclude_slash_tmp,
        } && writable_roots@.len() == 2 && writable_roots@[0]@ == workspace@
            && writable_roots@[1]@ == "/tmp/tandem-scratch"@ && !network_access && exclude_tmpdir_env_var
            && exclude_slash_tmp),
{
    match mode {
        WorkspaceMode::ReadOnly => SandboxPolicy::ReadOnly,
        _ => {
            let mut roots: Vec<String> = Vec::new();
            roots.push(workspace.clone());
            roots.push(String::from_str("/tmp/tandem-scratch"));
            SandboxPolicy::WorkspaceWrite {
                writable_roots: roots,
                network_access: false,
                exclude_tmpdir_env_var: true,
                exclude_slash_tmp: true,
            }
        },
    }
}

/// What an app-server notification says, as far as activity is shown: its method, the
/// text fields where they are strings, and the exit code and error message as JSON text.
#[derive(Debug)]
pub struct Notice {
    pub method: Option<String>,
    pub delta: Option<String>,
    pub item_type: Option<String>,
    pub command: Option<String>,
    pub exit_code: String,
    pub error_message: String,
}

/// The text a notification shows as agent activity, if it shows any: command output, a
/// command that starts, a command that completes with its exit code, or an error.
pub open spec fn activity_of(n: Notice) -> Option<Seq<char>> {
    match n.method {
        None => None,
        Some(m) => if m@ == "item/commandExecution/outputDelta"@ {
            match n.delta {
                Some(d) => Some(d@),
                None => None,
            }
        } else if m@ == "item/started"@ && (n.item_type matches Some(t) && t@ == "commandExecution"@) {
            match n.command {
                Some(c) => Some(c@),
                None => None,
            }
        } else if m@ == "item/completed"@ && (n.item_type matches Some(t) && t@ == "commandExecution"@) {
            Some("Command completed (exit "@ + n.exit_code@ + ")"@)
        } else if m@ == "error"@ {
            Some("Codex: "@ + n.error_message@)
        } else {
            None
        },
    }
}

/// Whether `t` names a command execution.
fn is_command(t: &Option<String>) -> (r: bool)
    ensures
        r == (t matches Some(s) && s@ == "commandExecution"@),
{
    match t {
        Some(s) => same_text(s.as_str(), "commandExecution"),
        None => false,
    }
}

/// The agent activity a notification shows, if any.
pub fn translate(n: &Notice) -> (r: Option<AgentEvent>)
    ensures
        match r {
            Some(e) => e matches AgentEvent::Activity(t) && activity_of(*n) == Some(t@),
            None => activity_of(*n) is None,
        },
{
    let m = match &n.method {
        Some(m) => m,
        None => {
            return None;
        },
    };
    if same_text(m.as_str(), "item/commandExecution/outputDelta") {
        match &n.delta {
            Some(d) => Some(AgentEvent::Activity(d.clone())),
            None => None,
        }
    } else if same_text(m.as_str(), "item/started") && is_command(&n.item_type) {
        match &n.command {
            Some(c) => Some(AgentEvent::Activity(c.clone())),
            None => None,
        }
    } else if same_text(m.as_str(), "item/completed") && is_command(&n.item_type) {
        let a = concat("Command completed (exit ", n.exit_code.as_str());
        Some(AgentEvent::Activity(concat(a.as_str(), ")")))
    } else if same_text(m.as_str(), "error") {
        Some(AgentEvent::Activity(concat("Codex: ", n.error_message.as_str())))
    } else {
        None
    }
}

} // verus!
