//! The template engine: each template fixes a command, base arguments and a
//! dynamic-argument schema, and applying one to a configuration replaces
//! the declared arguments and their values wholesale.

use vstd::prelude::*;
use crate::config::{ArgDefView, ArgDefinition, ArgType, McpConfig, McpConfigView, McpTemplate,
    McpType, config_wf};
use crate::strmap::{StrMap, assoc_sorted};
use crate::text::{lower_of, lowercase, str_eq};

verus! {

/// The dynamic-argument schema a template declares.
pub open spec fn spec_template_args(t: McpTemplate) -> Seq<ArgDefView> {
    match t {
        McpTemplate::AgentMcp => seq![
            ArgDefView {
                name: "port"@,
                flag: "--port"@,
                value_type: ArgType::Port,
                default: Some("8080"@),
                required: true,
                description: "HTTP server port"@,
            },
            ArgDefView {
                name: "project_dir"@,
                flag: "--project-dir"@,
                value_type: ArgType::Directory,
                default: None,
                required: true,
                description: "Project directory for agent operations"@,
            },
        ],
        McpTemplate::FileSystem => seq![
            ArgDefView {
                name: "allowed_paths"@,
                flag: ""@,
                value_type: ArgType::Directory,
                default: Some("/home"@),
                required: true,
                description: "Allowed filesystem paths (space-separated)"@,
            },
        ],
        McpTemplate::GitMcp => seq![
            ArgDefView {
                name: "repo_path"@,
                flag: "--repo"@,
                value_type: ArgType::Directory,
                default: None,
                required: true,
                description: "Git repository path"@,
            },
        ],
        _ => seq![],
    }
}

/// The values a template seeds: one entry per declared argument that has a
/// default.
pub open spec fn spec_template_seed(t: McpTemplate) -> Seq<(Seq<char>, Seq<char>)> {
    match t {
        McpTemplate::AgentMcp => seq![("port"@, "8080"@)],
        McpTemplate::FileSystem => seq![("allowed_paths"@, "/home"@)],
        _ => seq![],
    }
}

/// What applying a configuration's template yields: the declared arguments
/// and their values are replaced unconditionally — entered values are
/// discarded by design, a template switch is a new argument contract — and
/// command, base arguments and type are set as the template fixes them.
pub open spec fn spec_apply_template(c: McpConfigView) -> McpConfigView {
    let cleared = McpConfigView {
        dynamic_args: spec_template_args(c.template),
        arg_values: spec_template_seed(c.template),
        ..c
    };
    match c.template {
        McpTemplate::AgentMcp => McpConfigView {
            command: "uv"@,
            base_args: seq!["run"@, "-m"@, "agent_mcp.cli"@],
            mcp_type: McpType::Http,
            ..cleared
        },
        McpTemplate::FileSystem => McpConfigView {
            command: "npx"@,
            base_args: seq!["-y"@, "@modelcontextprotocol/server-filesystem"@],
            mcp_type: McpType::Stdio,
            ..cleared
        },
        McpTemplate::GitMcp => McpConfigView {
            command: "npx"@,
            base_args: seq!["-y"@, "@modelcontextprotocol/server-git"@],
            mcp_type: McpType::Stdio,
            ..cleared
        },
        McpTemplate::PythonProject => McpConfigView {
            command: if c.command.len() == 0 {
                "python"@
            } else {
                c.command
            },
            base_args: if c.base_args.len() == 0 {
                seq!["main.py"@]
            } else {
                c.base_args
            },
            ..cleared
        },
        McpTemplate::NodeProject => McpConfigView {
            command: if c.command.len() == 0 {
                "npm"@
            } else {
                c.command
            },
            base_args: if c.base_args.len() == 0 {
                seq!["start"@]
            } else {
                c.base_args
            },
            ..cleared
        },
        McpTemplate::GlobalNpx => McpConfigView {
            command: if c.command.len() == 0 {
                "npx"@
            } else {
                c.command
            },
            working_dir: None,
            ..cleared
        },
        McpTemplate::Custom => cleared,
    }
}

/// Replace a configuration's dynamic arguments, values, command, base
/// arguments and type by what its template fixes. Destructive on purpose:
/// any entered dynamic-argument values are discarded.
pub fn apply_template_defaults(config: &mut McpConfig)
    ensures
        final(config)@ == spec_apply_template(old(config)@),
        config_wf(final(config)@) == assoc_sorted(old(config)@.env_vars),
{
    proof {
        lemma_template_schema(old(config)@);
    }
    config.dynamic_args = Vec::new();
    config.arg_values = StrMap::new();
    match config.template {
        McpTemplate::AgentMcp => {
            config.command = "uv".to_owned();
            let mut base: Vec<String> = Vec::new();
            base.push("run".to_owned());
            base.push("-m".to_owned());
            base.push("agent_mcp.cli".to_owned());
            config.base_args = base;
            config.mcp_type = McpType::Http;
            config.dynamic_args.push(
                ArgDefinition {
                    name: "port".to_owned(),
                    flag: "--port".to_owned(),
                    value_type: ArgType::Port,
                    default: Some("8080".to_owned()),
                    required: true,
                    description: "HTTP server port".to_owned(),
                },
            );
            config.dynamic_args.push(
                ArgDefinition {
                    name: "project_dir".to_owned(),
                    flag: "--project-dir".to_owned(),
                    value_type: ArgType::Directory,
                    default: None,
                    required: true,
                    description: "Project directory for agent operations".to_owned(),
                },
            );
            config.arg_values.insert("port".to_owned(), "8080".to_owned());
        },
        McpTemplate::FileSystem => {
            config.command = "npx".to_owned();
            let mut base: Vec<String> = Vec::new();
            base.push("-y".to_owned());
            base.push("@modelcontextprotocol/server-filesystem".to_owned());
            config.base_args = base;
            config.mcp_type = McpType::Stdio;
            config.dynamic_args.push(
                ArgDefinition {
                    name: "allowed_paths".to_owned(),
                    flag: "".to_owned(),
                    value_type: ArgType::Directory,
                    default: Some("/home".to_owned()),
                    required: true,
                    description: "Allowed filesystem paths (space-separated)".to_owned(),
                },
            );
            config.arg_values.insert("allowed_paths".to_owned(), "/home".to_owned());
        },
        McpTemplate::GitMcp => {
            config.command = "npx".to_owned();
            let mut base: Vec<String> = Vec::new();
            base.push("-y".to_owned());
            base.push("@modelcontextprotocol/server-git".to_owned());
            config.base_args = base;
            config.mcp_type = McpType::Stdio;
            config.dynamic_args.push(
                ArgDefinition {
                    name: "repo_path".to_owned(),
                    flag: "--repo".to_owned(),
                    value_type: ArgType::Directory,
                    default: None,
                    required: true,
                    description: "Git repository path".to_owned(),
                },
            );
        },
        McpTemplate::PythonProject => {
            if config.command.as_str().is_empty() {
                config.command = "python".to_owned();
            }
            if config.base_args.is_empty() {
                let mut base: Vec<String> = Vec::new();
                base.push("main.py".to_owned());
                config.base_args = base;
            }
        },
        McpTemplate::NodeProject => {
            if config.command.as_str().is_empty() {
                config.command = "npm".to_owned();
            }
            if config.base_args.is_empty() {
                let mut base: Vec<String> = Vec::new();
                base.push("start".to_owned());
                config.base_args = base;
            }
        },
        McpTemplate::GlobalNpx => {
            if config.command.as_str().is_empty() {
                config.command = "npx".to_owned();
            }
            config.working_dir = None;
        },
        McpTemplate::Custom => {},
    }
    proof {
        assert(final(config)@.base_args =~= spec_apply_template(old(config)@).base_args);
        assert(final(config)@.dynamic_args =~= spec_apply_template(old(config)@).dynamic_args);
        assert(final(config)@.arg_values =~= spec_apply_template(old(config)@).arg_values);
        assert(final(config)@ =~= spec_apply_template(old(config)@));
    }
}

/// Applying any template yields exactly that template's declared argument
/// schema and exactly its default-seeded values — for every starting
/// configuration — and the result is well formed whenever the untouched
/// environment map was.
pub proof fn lemma_template_schema(c: McpConfigView)
    ensures
        spec_apply_template(c).dynamic_args == spec_template_args(c.template),
        spec_apply_template(c).arg_values == spec_template_seed(c.template),
        config_wf(spec_apply_template(c)) == assoc_sorted(c.env_vars),
{
    let r = spec_apply_template(c);
    assert(r.env_vars == c.env_vars);
    reveal_strlit("port");
    reveal_strlit("project_dir");
    assert("port"@.len() != "project_dir"@.len());
    assert forall|i: int, j: int|
        0 <= i < j < r.dynamic_args.len() implies (#[trigger] r.dynamic_args[i]).name != (
        #[trigger] r.dynamic_args[j]).name by {
        assert(r.dynamic_args.len() <= 2);
    }
    assert(assoc_sorted(r.arg_values));
}

/// The template a typed word selects, after lowercasing.
pub open spec fn spec_template_from(t: Seq<char>) -> McpTemplate {
    if t == "agent"@ || t == "agentmcp"@ || t == "agent-mcp"@ {
        McpTemplate::AgentMcp
    } else if t == "python"@ {
        McpTemplate::PythonProject
    } else if t == "node"@ || t == "nodejs"@ {
        McpTemplate::NodeProject
    } else if t == "npx"@ || t == "global"@ {
        McpTemplate::GlobalNpx
    } else if t == "filesystem"@ || t == "fs"@ {
        McpTemplate::FileSystem
    } else if t == "git"@ {
        McpTemplate::GitMcp
    } else {
        McpTemplate::Custom
    }
}

/// Pick the template a typed word names; unknown words mean a custom
/// configuration.
pub fn template_from_input(s: &str) -> (r: McpTemplate)
    ensures
        r == spec_template_from(lower_of(s@)),
{
    let low = lowercase(s);
    let t = low.as_str();
    if str_eq(t, "agent") || str_eq(t, "agentmcp") || str_eq(t, "agent-mcp") {
        McpTemplate::AgentMcp
    } else if str_eq(t, "python") {
        McpTemplate::PythonProject
    } else if str_eq(t, "node") || str_eq(t, "nodejs") {
        McpTemplate::NodeProject
    } else if str_eq(t, "npx") || str_eq(t, "global") {
        McpTemplate::GlobalNpx
    } else if str_eq(t, "filesystem") || str_eq(t, "fs") {
        McpTemplate::FileSystem
    } else if str_eq(t, "git") {
        McpTemplate::GitMcp
    } else {
        McpTemplate::Custom
    }
}

/// The server type a typed word selects, after lowercasing.
pub open spec fn spec_type_from(t: Seq<char>) -> McpType {
    if t == "http"@ {
        McpType::Http
    } else if t == "sse"@ {
        McpType::Sse
    } else {
        McpType::Stdio
    }
}

/// Pick the server type a typed word names; unknown words mean standard
/// I/O.
pub fn type_from_input(s: &str) -> (r: McpType)
    ensures
        r == spec_type_from(lower_of(s@)),
{
    let low = lowercase(s);
    let t = low.as_str();
    if str_eq(t, "http") {
        McpType::Http
    } else if str_eq(t, "sse") {
        McpType::Sse
    } else {
        McpType::Stdio
    }
}

/// The word shown for a template in the editing form.
pub open spec fn spec_template_label(t: McpTemplate) -> Seq<char> {
    match t {
        McpTemplate::AgentMcp => "agent"@,
        McpTemplate::PythonProject => "python"@,
        McpTemplate::NodeProject => "node"@,
        McpTemplate::GlobalNpx => "npx"@,
        McpTemplate::FileSystem => "filesystem"@,
        McpTemplate::GitMcp => "git"@,
        McpTemplate::Custom => "custom"@,
    }
}

/// The word shown for a template in the editing form.
pub fn template_label(t: McpTemplate) -> (r: String)
    ensures
        r@ == spec_template_label(t),
{
    match t {
        McpTemplate::AgentMcp => "agent".to_owned(),
        McpTemplate::PythonProject => "python".to_owned(),
        McpTemplate::NodeProject => "node".to_owned(),
        McpTemplate::GlobalNpx => "npx".to_owned(),
        McpTemplate::FileSystem => "filesystem".to_owned(),
        McpTemplate::GitMcp => "git".to_owned(),
        McpTemplate::Custom => "custom".to_owned(),
    }
}

/// The word shown for a server type.
pub open spec fn spec_type_label(t: McpType) -> Seq<char> {
    match t {
        McpType::Stdio => "stdio"@,
        McpType::Http => "http"@,
        McpType::Sse => "sse"@,
    }
}

/// The word shown for a server type.
pub fn type_label(t: McpType) -> (r: String)
    ensures
        r@ == spec_type_label(t),
{
    match t {
        McpType::Stdio => "stdio".to_owned(),
        McpType::Http => "http".to_owned(),
        McpType::Sse => "sse".to_owned(),
    }
}

} // verus!
