//! The data model: server type, template, dynamic-argument declarations,
//! the server configuration record and the launched-instance record, each
//! with its mathematical view.

use vstd::prelude::*;
use crate::strmap::{StrMap, assoc_sorted};

verus! {

/// How a managed server communicates.
#[derive(Clone, Copy, Debug, PartialEq, Eq, Structural)]
pub enum McpType {
    Stdio,
    Http,
    Sse,
}

/// A named preset fixing a configuration's command, base arguments and
/// dynamic-argument schema.
#[derive(Clone, Copy, Debug, PartialEq, Eq, Structural)]
pub enum McpTemplate {
    Custom,
    AgentMcp,
    PythonProject,
    NodeProject,
    GlobalNpx,
    FileSystem,
    GitMcp,
}

/// The kind of value a dynamic argument takes.
#[derive(Clone, Copy, Debug, PartialEq, Eq, Structural)]
pub enum ArgType {
    String,
    Number,
    Port,
    Directory,
    File,
    Boolean,
}

/// Declaration of one dynamic argument.
pub struct ArgDefinition {
    /// Unique key within one configuration.
    pub name: String,
    /// Empty means positional; non-empty is the flag token.
    pub flag: String,
    pub value_type: ArgType,
    /// Optional default literal, seeded into the values when a template is
    /// applied.
    pub default: Option<String>,
    pub required: bool,
    /// Help text shown beside the argument.
    pub description: String,
}

/// Mathematical image of an [`ArgDefinition`].
#[verifier::ext_equal]
pub ghost struct ArgDefView {
    pub name: Seq<char>,
    pub flag: Seq<char>,
    pub value_type: ArgType,
    pub default: Option<Seq<char>>,
    pub required: bool,
    pub description: Seq<char>,
}

impl View for ArgDefinition {
    type V = ArgDefView;

    open spec fn view(&self) -> ArgDefView {
        ArgDefView {
            name: self.name@,
            flag: self.flag@,
            value_type: self.value_type,
            default: match self.default {
                Some(d) => Some(d@),
                None => None,
            },
            required: self.required,
            description: self.description@,
        }
    }
}

impl ArgDefinition {
    /// A copy with the same view.
    pub fn duplicate(&self) -> (r: ArgDefinition)
        ensures
            r@ == self@,
    {
        let r = ArgDefinition {
            name: self.name.clone(),
            flag: self.flag.clone(),
            value_type: self.value_type,
            default: self.default.clone(),
            required: self.required,
            description: self.description.clone(),
        };
        proof {
            assert(r@ =~= self@);
        }
        r
    }
}

/// A named server definition.
pub struct McpConfig {
    /// Unique, non-empty once saved.
    pub name: String,
    pub mcp_type: McpType,
    pub template: McpTemplate,
    pub command: String,
    /// Static arguments, in order.
    pub base_args: Vec<String>,
    /// Declared dynamic arguments, in order; names are unique.
    pub dynamic_args: Vec<ArgDefinition>,
    /// Values supplied for dynamic arguments, keyed by argument name.
    pub arg_values: StrMap,
    /// Environment assignments; iteration is in ascending key order.
    pub env_vars: StrMap,
    pub working_dir: Option<String>,
    /// Script sourced before the command, for Python-style templates.
    pub activation_script: Option<String>,
}

/// Mathematical image of an [`McpConfig`].
#[verifier::ext_equal]
pub ghost struct McpConfigView {
    pub name: Seq<char>,
    pub mcp_type: McpType,
    pub template: McpTemplate,
    pub command: Seq<char>,
    pub base_args: Seq<Seq<char>>,
    pub dynamic_args: Seq<ArgDefView>,
    pub arg_values: Seq<(Seq<char>, Seq<char>)>,
    pub env_vars: Seq<(Seq<char>, Seq<char>)>,
    pub working_dir: Option<Seq<char>>,
    pub activation_script: Option<Seq<char>>,
}

impl View for McpConfig {
    type V = McpConfigView;

    open spec fn view(&self) -> McpConfigView {
        McpConfigView {
            name: self.name@,
            mcp_type: self.mcp_type,
            template: self.template,
            command: self.command@,
            base_args: Seq::new(self.base_args@.len(), |i: int| self.base_args@[i]@),
            dynamic_args: Seq::new(self.dynamic_args@.len(), |i: int| self.dynamic_args@[i]@),
            arg_values: self.arg_values@,
            env_vars: self.env_vars@,
            working_dir: match self.working_dir {
                Some(d) => Some(d@),
                None => None,
            },
            activation_script: match self.activation_script {
                Some(s) => Some(s@),
                None => None,
            },
        }
    }
}

/// Dynamic-argument names are unique and the two maps keep their ascending
/// key order.
pub open spec fn config_wf(c: McpConfigView) -> bool {
    &&& forall|i: int, j: int|
        0 <= i < j < c.dynamic_args.len() ==> (#[trigger] c.dynamic_args[i]).name != (
        #[trigger] c.dynamic_args[j]).name
    &&& assoc_sorted(c.arg_values)
    &&& assoc_sorted(c.env_vars)
}

/// The view of a configuration with every field empty and the neutral
/// choices: standard-I/O type, custom template.
pub open spec fn spec_default_config() -> McpConfigView {
    McpConfigView {
        name: Seq::empty(),
        mcp_type: McpType::Stdio,
        template: McpTemplate::Custom,
        command: Seq::empty(),
        base_args: Seq::empty(),
        dynamic_args: Seq::empty(),
        arg_values: Seq::empty(),
        env_vars: Seq::empty(),
        working_dir: None,
        activation_script: None,
    }
}

impl Default for McpConfig {
    /// The empty configuration a fresh editor starts from.
    fn default() -> (r: McpConfig)
        ensures
            r@ == spec_default_config(),
            config_wf(r@),
    {
        let r = McpConfig {
            name: String::new(),
            mcp_type: McpType::Stdio,
            template: McpTemplate::Custom,
            command: String::new(),
            base_args: Vec::new(),
            dynamic_args: Vec::new(),
            arg_values: StrMap::new(),
            env_vars: StrMap::new(),
            working_dir: None,
            activation_script: None,
        };
        proof {
            assert(r@ =~= spec_default_config());
        }
        r
    }
}

/// Copy a vector of strings; the view is unchanged.
pub fn duplicate_strings(v: &Vec<String>) -> (r: Vec<String>)
    ensures
        r@.len() == v@.len(),
        forall|i: int| 0 <= i < v@.len() ==> (#[trigger] r@[i])@ == v@[i]@,
{
    let n = v.len();
    let mut out: Vec<String> = Vec::new();
    let mut i: usize = 0;
    while i < n
        invariant
            i <= n,
            n == v@.len(),
            out@.len() == i,
            forall|j: int| 0 <= j < i ==> (#[trigger] out@[j])@ == v@[j]@,
        decreases n - i,
    {
        out.push(v[i].clone());
        i += 1;
    }
    out
}

impl McpConfig {
    /// A copy with the same view.
    pub fn duplicate(&self) -> (r: McpConfig)
        ensures
            r@ == self@,
    {
        let n = self.dynamic_args.len();
        let mut args: Vec<ArgDefinition> = Vec::new();
        let mut i: usize = 0;
        while i < n
            invariant
                i <= n,
                n == self.dynamic_args@.len(),
                args@.len() == i,
                forall|j: int| 0 <= j < i ==> (#[trigger] args@[j])@ == self.dynamic_args@[j]@,
            decreases n - i,
        {
            args.push(self.dynamic_args[i].duplicate());
            i += 1;
        }
        let r = McpConfig {
            name: self.name.clone(),
            mcp_type: self.mcp_type,
            template: self.template,
            command: self.command.clone(),
            base_args: duplicate_strings(&self.base_args),
            dynamic_args: args,
            arg_values: self.arg_values.duplicate(),
            env_vars: self.env_vars.duplicate(),
            working_dir: self.working_dir.clone(),
            activation_script: self.activation_script.clone(),
        };
        proof {
            assert(r@.base_args =~= self@.base_args);
            assert(r@.dynamic_args =~= self@.dynamic_args);
            assert(r@ =~= self@);
        }
        r
    }
}

/// Whether a launched server is believed to run.
pub enum McpStatus {
    Running,
    Stopped,
    Failed(String),
}

/// Mathematical image of an [`McpStatus`].
#[verifier::ext_equal]
pub ghost enum StatusView {
    Running,
    Stopped,
    Failed(Seq<char>),
}

impl View for McpStatus {
    type V = StatusView;

    open spec fn view(&self) -> StatusView {
        match self {
            McpStatus::Running => StatusView::Running,
            McpStatus::Stopped => StatusView::Stopped,
            McpStatus::Failed(reason) => StatusView::Failed(reason@),
        }
    }
}

impl McpStatus {
    /// A copy with the same view.
    pub fn duplicate(&self) -> (r: McpStatus)
        ensures
            r@ == self@,
    {
        match self {
            McpStatus::Running => McpStatus::Running,
            McpStatus::Stopped => McpStatus::Stopped,
            McpStatus::Failed(reason) => McpStatus::Failed(reason.clone()),
        }
    }
}

/// A launched server: the configuration as it was at launch time plus the
/// session it runs in.
pub struct McpInstance {
    /// Snapshot of the configuration at launch time.
    pub config: McpConfig,
    /// Name of the multiplexer session hosting the server.
    pub session_name: String,
    pub status: McpStatus,
    /// Wall-clock text recorded when the launch succeeded.
    pub started_at: String,
    /// The resolved port, for server types that use one.
    pub actual_port: Option<u16>,
}

/// Mathematical image of an [`McpInstance`].
#[verifier::ext_equal]
pub ghost struct InstanceView {
    pub config: McpConfigView,
    pub session_name: Seq<char>,
    pub status: StatusView,
    pub started_at: Seq<char>,
    pub actual_port: Option<u16>,
}

impl View for McpInstance {
    type V = InstanceView;

    open spec fn view(&self) -> InstanceView {
        InstanceView {
            config: self.config@,
            session_name: self.session_name@,
            status: self.status@,
            started_at: self.started_at@,
            actual_port: self.actual_port,
        }
    }
}

impl McpInstance {
    /// A copy with the same view.
    pub fn duplicate(&self) -> (r: McpInstance)
        ensures
            r@ == self@,
    {
        let r = McpInstance {
            config: self.config.duplicate(),
            session_name: self.session_name.clone(),
            status: self.status.duplicate(),
            started_at: self.started_at.clone(),
            actual_port: self.actual_port,
        };
        proof {
            assert(r@ =~= self@);
        }
        r
    }
}

} // verus!
